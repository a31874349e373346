use vstd::prelude::*;

use crate::components::{
    dx_of, dy_of, is_solid_for_enemy_at, solid_for_enemy_at, Dir, Enemy, Game, Motion, Player, Pos,
};
use crate::constants::{FLASH_CLEAR_MS, HIT_COOLDOWN_MS};
use crate::player_systems::target_in_range;
use crate::rng::draw_below;

verus! {

/// Health points one contact hit subtracts.
pub const DAMAGE: i32 = 1;

/// `b` is exactly one cardinal cell step away from `a`.
pub open spec fn one_step(a: Pos, b: Pos) -> bool {
    ||| (b.x == a.x + 1 && b.y == a.y)
    ||| (b.x == a.x - 1 && b.y == a.y)
    ||| (b.x == a.x && b.y == a.y + 1)
    ||| (b.x == a.x && b.y == a.y - 1)
}

/// What one movement tick may do to one enemy: an actor in transition is
/// untouched; an idle one either stays as it is or commits a one-cell
/// step into a cell no wall, breakable wall or bomb occupies. Which of
/// the legal choices is taken is drawn uniformly at random, so no more
/// is promised.
pub open spec fn enemy_step_ok(g0: Game, e0: Enemy, e1: Enemy, now: u64) -> bool {
    if e0.motion is Idle {
        e1 == e0 || {
            &&& one_step(e0.pos, e1.pos)
            &&& !solid_for_enemy_at(g0, e1.pos.x as int, e1.pos.y as int)
            &&& e1.motion == (Motion::Moving { start: e0.pos, end: e1.pos, started: now })
        }
    } else {
        e1 == e0
    }
}

/// Pushes the step target of `from` in `d` onto the candidate list when
/// it is representable and no solid-for-enemies entity occupies it.
fn push_if_free(cands: &mut Vec<Pos>, g: &Game, from: Pos, d: Dir)
    ensures
        ({
            let tx = from.x + dx_of(d);
            let ty = from.y + dy_of(d);
            if target_in_range(from, d) && !solid_for_enemy_at(*g, tx, ty) {
                final(cands)@ == old(cands)@.push(Pos { x: tx as i32, y: ty as i32 })
            } else {
                final(cands)@ == old(cands)@
            }
        }),
{
    let tx_wide: i64 = from.x as i64 + crate::player_systems::step_dx(d) as i64;
    let ty_wide: i64 = from.y as i64 + crate::player_systems::step_dy(d) as i64;
    if i32::MIN as i64 <= tx_wide && tx_wide <= i32::MAX as i64 && i32::MIN as i64 <= ty_wide
        && ty_wide <= i32::MAX as i64 {
        let tx: i32 = tx_wide as i32;
        let ty: i32 = ty_wide as i32;
        if !is_solid_for_enemy_at(g, tx, ty) {
            cands.push(Pos { x: tx, y: ty });
        }
    }
}

/// Once per movement tick, draws each idle enemy's next cell uniformly
/// from its precomputed legal choices: staying put, or stepping into an
/// adjacent cell not blocked by a wall, a breakable wall or the bomb.
/// Enemies do not block each other, and the blocking population does not
/// change during the tick, so the choices of one enemy are independent
/// of the moves of the others.
pub fn move_enemy_system(game: &mut Game, now: u64)
    ensures
        final(game).field == old(game).field,
        final(game).player == old(game).player,
        final(game).bomb == old(game).bomb,
        final(game).explosions == old(game).explosions,
        final(game).walls == old(game).walls,
        final(game).breakable_walls == old(game).breakable_walls,
        final(game).enemies@.len() == old(game).enemies@.len(),
        forall|k: int|
            0 <= k < old(game).enemies@.len() ==> enemy_step_ok(
                *old(game),
                old(game).enemies@[k],
                #[trigger] final(game).enemies@[k],
                now,
            ),
{
    let mut moved: Vec<Enemy> = Vec::new();
    let n = game.enemies.len();
    let mut k: usize = 0;
    while k < n
        invariant
            k <= n,
            n == game.enemies@.len(),
            *game == *old(game),
            moved@.len() == k as int,
            forall|m: int|
                0 <= m < k as int ==> enemy_step_ok(
                    *old(game),
                    old(game).enemies@[m],
                    #[trigger] moved@[m],
                    now,
                ),
        decreases n - k,
    {
        let e = game.enemies[k];
        let next = match e.motion {
            Motion::Idle => {
                let mut cands: Vec<Pos> = Vec::new();
                cands.push(e.pos);
                proof {
                    assert(forall|m: int|
                        0 <= m < cands@.len() ==> #[trigger] cands@[m] == e.pos || (one_step(
                            e.pos,
                            cands@[m],
                        ) && !solid_for_enemy_at(
                            *game,
                            cands@[m].x as int,
                            cands@[m].y as int,
                        )));
                }
                push_if_free(&mut cands, game, e.pos, Dir::East);
                push_if_free(&mut cands, game, e.pos, Dir::North);
                push_if_free(&mut cands, game, e.pos, Dir::West);
                push_if_free(&mut cands, game, e.pos, Dir::South);
                let pick = draw_below(cands.len());
                let tgt = cands[pick];
                if tgt.x == e.pos.x && tgt.y == e.pos.y {
                    e
                } else {
                    Enemy { pos: tgt, motion: Motion::Moving { start: e.pos, end: tgt, started: now } }
                }
            },
            Motion::Moving { .. } => e,
        };
        moved.push(next);
        k = k + 1;
    }
    game.enemies = moved;
}

/// Health after subtracting `d` points, floored at the machine minimum;
/// health never increases.
pub open spec fn damaged_health(h: int, d: int) -> int {
    if h - d >= i32::MIN as int {
        h - d
    } else {
        i32::MIN as int
    }
}

/// Number of enemies among the first `kend` that occupy the cell `p`.
pub open spec fn contact_count(enemies: Seq<Enemy>, p: Pos, kend: int) -> int
    decreases kend,
{
    if kend <= 0 {
        0
    } else {
        contact_count(enemies, p, kend - 1) + if enemies[kend - 1].pos == p {
            1int
        } else {
            0int
        }
    }
}

pub proof fn lemma_contact_count_bounds(enemies: Seq<Enemy>, p: Pos, kend: int)
    requires
        0 <= kend <= enemies.len(),
    ensures
        0 <= contact_count(enemies, p, kend) <= kend,
    decreases kend,
{
    if kend > 0 {
        lemma_contact_count_bounds(enemies, p, kend - 1);
    }
}

/// The player after one contact-damage tick at `now`: enemies on the
/// player's cell are counted; a nonzero count outside the cooldown
/// window applies one combined damage event of count times `DAMAGE`,
/// records the hit time and raises the damage flash; afterwards the
/// flash is cleared once the (longer) flash window has elapsed since the
/// last recorded hit.
pub open spec fn contact_damaged(p: Player, enemies: Seq<Enemy>, now: u64) -> Player {
    let cnt = contact_count(enemies, p.pos, enemies.len() as int);
    let hit = cnt > 0 && now > p.last_hit + HIT_COOLDOWN_MS;
    let h1 = if hit {
        damaged_health(p.health as int, cnt * (DAMAGE as int))
    } else {
        p.health as int
    };
    let lh = if hit {
        now
    } else {
        p.last_hit
    };
    let f1 = if hit {
        true
    } else {
        p.flash
    };
    let f2 = if now > lh + FLASH_CLEAR_MS {
        false
    } else {
        f1
    };
    Player { health: h1 as i32, last_hit: lh, flash: f2, ..p }
}

/// Each tick, enemies standing on the player's cell melee the player:
/// one combined damage event per tick, gated by the invulnerability
/// window since the last recorded hit. Positions are lattice-aligned, so
/// contact within half a cell on each axis is exact cell coincidence
/// (`crate::utils::lemma_approx_eq_on_lattice`). Health never increases,
/// and no two damage events lie closer than the cooldown window.
pub fn enemy_kill_player_system(game: &mut Game, now: u64)
    requires
        old(game).player matches Some(p) ==> p.last_hit <= now,
    ensures
        final(game).field == old(game).field,
        final(game).enemies == old(game).enemies,
        final(game).bomb == old(game).bomb,
        final(game).explosions == old(game).explosions,
        final(game).walls == old(game).walls,
        final(game).breakable_walls == old(game).breakable_walls,
        match old(game).player {
            None => final(game).player == old(game).player,
            Some(p) => final(game).player == Some(contact_damaged(p, old(game).enemies@, now)),
        },
        old(game).player matches Some(p) ==> final(game).player matches Some(q) && q.health
            <= p.health,
        (old(game).player matches Some(p) && final(game).player matches Some(q) && q.health
            != p.health) ==> (now > old(game).player.unwrap().last_hit + HIT_COOLDOWN_MS
            && final(game).player.unwrap().last_hit == now),
{
    let player = game.player;
    match player {
        None => {},
        Some(p) => {
            let n = game.enemies.len();
            let mut count: usize = 0;
            let mut k: usize = 0;
            while k < n
                invariant
                    k <= n,
                    n == game.enemies@.len(),
                    count as int == contact_count(game.enemies@, p.pos, k as int),
                    count <= k,
                decreases n - k,
            {
                let e = game.enemies[k];
                if e.pos.x == p.pos.x && e.pos.y == p.pos.y {
                    proof {
                        assert(game.enemies@[k as int].pos == p.pos);
                    }
                    count = count + 1;
                }
                k = k + 1;
            }
            let mut health = p.health;
            let mut last_hit = p.last_hit;
            let mut flash = p.flash;
            if count > 0 && now - p.last_hit > HIT_COOLDOWN_MS {
                let dealt: i128 = count as i128 * DAMAGE as i128;
                let rest: i128 = p.health as i128 - dealt;
                health = if rest < i32::MIN as i128 {
                    i32::MIN
                } else {
                    rest as i32
                };
                last_hit = now;
                flash = true;
            }
            if now - last_hit > FLASH_CLEAR_MS {
                flash = false;
            }
            proof {
                lemma_contact_count_bounds(game.enemies@, p.pos, game.enemies@.len() as int);
            }
            game.player = Some(Player { health, last_hit, flash, ..p });
        },
    }
}

/// Removes the first live enemy, a developer convenience the input
/// collaborator triggers directly.
pub fn debug_kill_enemy(game: &mut Game)
    ensures
        final(game).field == old(game).field,
        final(game).player == old(game).player,
        final(game).bomb == old(game).bomb,
        final(game).explosions == old(game).explosions,
        final(game).walls == old(game).walls,
        final(game).breakable_walls == old(game).breakable_walls,
        old(game).enemies@.len() == 0 ==> final(game).enemies == old(game).enemies,
        old(game).enemies@.len() > 0 ==> final(game).enemies@ == old(game).enemies@.subrange(
            1,
            old(game).enemies@.len() as int,
        ),
{
    if game.enemies.len() > 0 {
        game.enemies.remove(0);
        proof {
            assert(game.enemies@ =~= old(game).enemies@.subrange(
                1,
                old(game).enemies@.len() as int,
            ));
        }
    }
}

} // verus!
