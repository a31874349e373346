use vstd::prelude::*;

use crate::components::{
    explosion_at, is_explosion_at, is_wall_at, wall_at, Axis, Bomb, BreakableWall, Dir, Enemy,
    Explosion, ExplosionKind, Game, Player, Pos, Wall,
};
use crate::constants::{BOMB_TIMER_MS, EXPLOSION_LIFETIME_MS, EXPLOSION_SIZE, HIT_COOLDOWN_MS};
use crate::enemy_systems::{damaged_health, DAMAGE};

verus! {

/// The number of live bombs a state can hold: the single slot makes two
/// simultaneous bombs unrepresentable.
pub open spec fn bomb_count(g: Game) -> int {
    if g.bomb is Some {
        1int
    } else {
        0int
    }
}

/// At most one bomb exists at any simulated instant.
pub proof fn lemma_single_bomb(g: Game)
    ensures
        bomb_count(g) <= 1,
{
}

/// Places a bomb at the player's cell in response to an explicit
/// placement action. Spawn is suppressed while any bomb exists, and a
/// missing player means there is nothing to do this tick.
pub fn spawn_bomb_system(game: &mut Game, now: u64)
    ensures
        final(game).field == old(game).field,
        final(game).player == old(game).player,
        final(game).enemies == old(game).enemies,
        final(game).explosions == old(game).explosions,
        final(game).walls == old(game).walls,
        final(game).breakable_walls == old(game).breakable_walls,
        old(game).bomb is Some ==> final(game).bomb == old(game).bomb,
        old(game).bomb is None ==> match old(game).player {
            Some(p) => final(game).bomb == Some((Bomb { pos: p.pos, spawned: now })),
            None => final(game).bomb is None,
        },
        bomb_count(*final(game)) <= 1,
{
    if game.bomb.is_none() {
        let player = game.player;
        match player {
            Some(p) => {
                game.bomb = Some(Bomb { pos: p.pos, spawned: now });
            },
            None => {},
        }
    }
}

/// The bomb's position keeps the whole blast square representable in
/// machine coordinates.
pub open spec fn blast_in_range(p: Pos) -> bool {
    &&& i32::MIN + EXPLOSION_SIZE as int <= p.x <= i32::MAX - EXPLOSION_SIZE as int
    &&& i32::MIN + EXPLOSION_SIZE as int <= p.y <= i32::MAX - EXPLOSION_SIZE as int
}

/// A wall stands `k` cells outward from `origin` along the unit
/// direction `(sx, sy)`.
pub open spec fn wall_on_ray(walls: Seq<Wall>, origin: Pos, sx: int, sy: int, k: int) -> bool {
    wall_at(walls, origin.x + k * sx, origin.y + k * sy)
}

/// Offset of the boundary of a blast segment scanning outward from
/// `origin` along the unit direction `(sx, sy)`, starting at offset
/// `from`: the offset of the first cell holding an indestructible wall
/// — the blast stops at and includes that cell — or the full radius if
/// none blocks within it.
pub open spec fn boundary_from(walls: Seq<Wall>, origin: Pos, sx: int, sy: int, from: int) -> int
    decreases EXPLOSION_SIZE as int - from,
{
    if from >= EXPLOSION_SIZE as int {
        EXPLOSION_SIZE as int
    } else if wall_on_ray(walls, origin, sx, sy, from) {
        from
    } else {
        boundary_from(walls, origin, sx, sy, from + 1)
    }
}

/// With no wall within the radius on the scanned side, the scan runs the
/// full radius.
pub proof fn lemma_scan_unblocked(walls: Seq<Wall>, origin: Pos, sx: int, sy: int, from: int)
    requires
        0 <= from <= EXPLOSION_SIZE as int,
        forall|k: int|
            from <= k <= EXPLOSION_SIZE as int ==> !#[trigger] wall_on_ray(
                walls,
                origin,
                sx,
                sy,
                k,
            ),
    ensures
        boundary_from(walls, origin, sx, sy, from) == EXPLOSION_SIZE as int,
    decreases EXPLOSION_SIZE as int - from,
{
    if from < EXPLOSION_SIZE as int {
        assert(!wall_on_ray(walls, origin, sx, sy, from));
        lemma_scan_unblocked(walls, origin, sx, sy, from + 1);
    }
}

/// With the nearest wall on the scanned side at offset `kw` within the
/// radius, the scan stops at and includes exactly `kw`.
pub proof fn lemma_scan_blocked(
    walls: Seq<Wall>,
    origin: Pos,
    sx: int,
    sy: int,
    from: int,
    kw: int,
)
    requires
        0 <= from <= kw <= EXPLOSION_SIZE as int,
        wall_on_ray(walls, origin, sx, sy, kw),
        forall|k: int| from <= k < kw ==> !#[trigger] wall_on_ray(walls, origin, sx, sy, k),
    ensures
        boundary_from(walls, origin, sx, sy, from) == kw,
    decreases kw - from,
{
    if from < kw {
        assert(!wall_on_ray(walls, origin, sx, sy, from));
        lemma_scan_blocked(walls, origin, sx, sy, from + 1, kw);
    }
}

/// Scans outward from the bomb's cell in one unit direction, including
/// the cell at offset zero, up to the blast radius.
fn find_boundary(walls: &Vec<Wall>, origin: Pos, sx: i32, sy: i32) -> (b: i32)
    requires
        -1 <= sx <= 1,
        -1 <= sy <= 1,
        blast_in_range(origin),
    ensures
        b as int == boundary_from(walls@, origin, sx as int, sy as int, 0),
        0 <= b <= EXPLOSION_SIZE,
{
    let mut k: i32 = 0;
    while k < EXPLOSION_SIZE
        invariant
            0 <= k <= EXPLOSION_SIZE,
            -1 <= sx <= 1,
            -1 <= sy <= 1,
            blast_in_range(origin),
            boundary_from(walls@, origin, sx as int, sy as int, 0) == boundary_from(
                walls@,
                origin,
                sx as int,
                sy as int,
                k as int,
            ),
        decreases EXPLOSION_SIZE - k,
    {
        let dx: i32 = if sx == 1 {
            k
        } else if sx == -1 {
            -k
        } else {
            0
        };
        let dy: i32 = if sy == 1 {
            k
        } else if sy == -1 {
            -k
        } else {
            0
        };
        proof {
            if sx == 1 {
                assert(dx as int == k as int * 1);
            } else if sx == -1 {
                assert(dx as int == k as int * (-1));
            } else {
                assert(sx == 0);
                assert(dx as int == k as int * 0);
            }
            if sy == 1 {
                assert(dy as int == k as int * 1);
            } else if sy == -1 {
                assert(dy as int == k as int * (-1));
            } else {
                assert(sy == 0);
                assert(dy as int == k as int * 0);
            }
            assert(dx as int == k as int * sx as int);
            assert(dy as int == k as int * sy as int);
        }
        if is_wall_at(walls, origin.x + dx, origin.y + dy) {
            return k;
        }
        k = k + 1;
    }
    EXPLOSION_SIZE
}

/// Visual variant of the horizontal blast cell at offset `i` between the
/// boundaries `l` and `r`: the bomb's own cell is the center; a boundary
/// cell away from the center is an end pointing outward; the rest are
/// body cells along the axis.
pub open spec fn h_variant(i: int, l: int, r: int) -> ExplosionKind {
    if i == 0 {
        ExplosionKind::Center
    } else if i == l {
        ExplosionKind::End(Dir::West)
    } else if i == r {
        ExplosionKind::End(Dir::East)
    } else {
        ExplosionKind::Body(Axis::Horizontal)
    }
}

/// Visual variant of the vertical blast cell at offset `i` between the
/// boundaries `b` and `t`; the center cell belongs to the horizontal
/// pass and never appears here.
pub open spec fn v_variant(i: int, b: int, t: int) -> ExplosionKind {
    if i == b {
        ExplosionKind::End(Dir::South)
    } else if i == t {
        ExplosionKind::End(Dir::North)
    } else {
        ExplosionKind::Body(Axis::Vertical)
    }
}

/// The horizontal blast cells at offsets `l..upto` on the bomb's row,
/// in offset order.
pub open spec fn h_explosions(bp: Pos, l: int, r: int, now: u64, upto: int) -> Seq<Explosion>
    decreases upto - l,
{
    if upto <= l {
        Seq::empty()
    } else {
        h_explosions(bp, l, r, now, upto - 1) + seq![
            (Explosion {
                pos: (Pos { x: (bp.x + (upto - 1)) as i32, y: bp.y }),
                spawned: now,
                kind: h_variant(upto - 1, l, r),
            }),
        ]
    }
}

/// The vertical blast cells at offsets `b..upto` on the bomb's column,
/// in offset order, skipping the center cell the horizontal pass owns.
pub open spec fn v_explosions(bp: Pos, b: int, t: int, now: u64, upto: int) -> Seq<Explosion>
    decreases upto - b,
{
    if upto <= b {
        Seq::empty()
    } else {
        v_explosions(bp, b, t, now, upto - 1) + if upto - 1 == 0 {
            Seq::empty()
        } else {
            seq![
                (Explosion {
                    pos: (Pos { x: bp.x, y: (bp.y + (upto - 1)) as i32 }),
                    spawned: now,
                    kind: v_variant(upto - 1, b, t),
                }),
            ]
        }
    }
}

/// The full blast footprint of a bomb at `bp` detonating at `now`: the
/// horizontal segment between the two horizontal boundaries, then the
/// vertical segment between the two vertical boundaries, the center
/// emitted exactly once.
pub open spec fn blast_of(walls: Seq<Wall>, bp: Pos, now: u64) -> Seq<Explosion> {
    let r = boundary_from(walls, bp, 1, 0, 0);
    let l = -boundary_from(walls, bp, -1, 0, 0);
    let t = boundary_from(walls, bp, 0, 1, 0);
    let b = -boundary_from(walls, bp, 0, -1, 0);
    h_explosions(bp, l, r, now, r + 1) + v_explosions(bp, b, t, now, t + 1)
}

/// Whether the fuse of the bomb, if one is armed, has run out at `now`.
pub open spec fn fuse_elapsed(bomb: Option<Bomb>, now: u64) -> bool {
    match bomb {
        Some(b) => now - b.spawned >= BOMB_TIMER_MS,
        None => false,
    }
}

/// The fixed-cadence detonation check: when the armed bomb's age has
/// reached the fuse duration, despawns it and spawns one explosion per
/// blast-footprint cell, each stamped with `now` and its visual variant.
/// Indestructible walls bound each of the four scans; the blast stops at
/// and includes the first wall cell, or runs the full radius.
pub fn detonate_bomb_system(game: &mut Game, now: u64)
    requires
        old(game).bomb matches Some(b) ==> b.spawned <= now && blast_in_range(b.pos),
    ensures
        final(game).field == old(game).field,
        final(game).player == old(game).player,
        final(game).enemies == old(game).enemies,
        final(game).walls == old(game).walls,
        final(game).breakable_walls == old(game).breakable_walls,
        !fuse_elapsed(old(game).bomb, now) ==> *final(game) == *old(game),
        fuse_elapsed(old(game).bomb, now) ==> {
            &&& final(game).bomb is None
            &&& final(game).explosions@ == old(game).explosions@ + blast_of(
                old(game).walls@,
                old(game).bomb.unwrap().pos,
                now,
            )
        },
{
    let bomb = game.bomb;
    match bomb {
        None => {},
        Some(b) => {
            if now - b.spawned >= BOMB_TIMER_MS {
                game.bomb = None;
                let bp = b.pos;
                let right = find_boundary(&game.walls, bp, 1, 0);
                let left = -find_boundary(&game.walls, bp, -1, 0);
                let top = find_boundary(&game.walls, bp, 0, 1);
                let bottom = -find_boundary(&game.walls, bp, 0, -1);
                let ghost l = left as int;
                let ghost r = right as int;
                let ghost t = top as int;
                let ghost bo = bottom as int;
                let ghost walls0 = game.walls@;
                let ghost explosions0 = game.explosions@;
                let mut i: i32 = left;
                proof {
                    assert(explosions0 + h_explosions(bp, l, r, now, l) =~= explosions0);
                }
                while i <= right
                    invariant
                        left <= i <= right + 1,
                        l == left as int,
                        r == right as int,
                        -EXPLOSION_SIZE <= left <= 0,
                        0 <= right <= EXPLOSION_SIZE,
                        blast_in_range(bp),
                        walls0 == game.walls@,
                        game.field == old(game).field,
                        game.player == old(game).player,
                        game.enemies == old(game).enemies,
                        game.walls == old(game).walls,
                        game.breakable_walls == old(game).breakable_walls,
                        game.bomb is None,
                        game.explosions@ == explosions0 + h_explosions(bp, l, r, now, i as int),
                    decreases right + 1 - i,
                {
                    let kind = if i == 0 {
                        ExplosionKind::Center
                    } else if i == left {
                        ExplosionKind::End(Dir::West)
                    } else if i == right {
                        ExplosionKind::End(Dir::East)
                    } else {
                        ExplosionKind::Body(Axis::Horizontal)
                    };
                    game.explosions.push(
                        Explosion { pos: Pos { x: bp.x + i, y: bp.y }, spawned: now, kind },
                    );
                    proof {
                        assert(game.explosions@ =~= explosions0 + h_explosions(
                            bp,
                            l,
                            r,
                            now,
                            i as int + 1,
                        ));
                    }
                    i = i + 1;
                }
                let ghost hdone = game.explosions@;
                let mut j: i32 = bottom;
                proof {
                    assert(hdone + v_explosions(bp, bo, t, now, bo) =~= hdone);
                }
                while j <= top
                    invariant
                        bottom <= j <= top + 1,
                        bo == bottom as int,
                        t == top as int,
                        -EXPLOSION_SIZE <= bottom <= 0,
                        0 <= top <= EXPLOSION_SIZE,
                        blast_in_range(bp),
                        game.field == old(game).field,
                        game.player == old(game).player,
                        game.enemies == old(game).enemies,
                        game.walls == old(game).walls,
                        game.breakable_walls == old(game).breakable_walls,
                        game.bomb is None,
                        game.explosions@ == hdone + v_explosions(bp, bo, t, now, j as int),
                    decreases top + 1 - j,
                {
                    if j != 0 {
                        let kind = if j == bottom {
                            ExplosionKind::End(Dir::South)
                        } else if j == top {
                            ExplosionKind::End(Dir::North)
                        } else {
                            ExplosionKind::Body(Axis::Vertical)
                        };
                        game.explosions.push(
                            Explosion { pos: Pos { x: bp.x, y: bp.y + j }, spawned: now, kind },
                        );
                    }
                    proof {
                        assert(game.explosions@ =~= hdone + v_explosions(
                            bp,
                            bo,
                            t,
                            now,
                            j as int + 1,
                        ));
                    }
                    j = j + 1;
                }
                proof {
                    assert(game.explosions@ =~= explosions0 + blast_of(walls0, bp, now));
                }
            }
        },
    }
}

/// A cell `(x, y)` belongs to one of two explosion batches iff it
/// belongs to either batch.
proof fn lemma_explosion_at_concat(a: Seq<Explosion>, b: Seq<Explosion>, x: int, y: int)
    ensures
        explosion_at(a + b, x, y) == (explosion_at(a, x, y) || explosion_at(b, x, y)),
{
    if explosion_at(a, x, y) {
        let k = choose|k: int|
            0 <= k < a.len() && (#[trigger] a[k]).pos.x == x && a[k].pos.y == y;
        assert((a + b)[k].pos.x == x && (a + b)[k].pos.y == y);
    }
    if explosion_at(b, x, y) {
        let k = choose|k: int|
            0 <= k < b.len() && (#[trigger] b[k]).pos.x == x && b[k].pos.y == y;
        assert((a + b)[a.len() + k].pos.x == x && (a + b)[a.len() + k].pos.y == y);
    }
    if explosion_at(a + b, x, y) {
        let k = choose|k: int|
            0 <= k < (a + b).len() && (#[trigger] (a + b)[k]).pos.x == x && (a + b)[k].pos.y == y;
        if k < a.len() {
            assert(a[k].pos.x == x && a[k].pos.y == y);
        } else {
            assert(b[k - a.len()].pos.x == x && b[k - a.len()].pos.y == y);
        }
    }
}

/// The horizontal blast segment with boundaries `l ≤ 0 ≤ r` illuminates,
/// on the bomb's row, exactly the cells at offsets `l` through `r`.
pub proof fn lemma_h_explosions_span(bp: Pos, l: int, r: int, now: u64, upto: int, off: int)
    requires
        blast_in_range(bp),
        -EXPLOSION_SIZE as int <= l <= upto,
        upto <= r + 1 <= EXPLOSION_SIZE as int + 1,
    ensures
        explosion_at(h_explosions(bp, l, r, now, upto), bp.x + off, bp.y as int) <==> l <= off < upto,
    decreases upto - l,
{
    if upto <= l {
    } else {
        lemma_h_explosions_span(bp, l, r, now, upto - 1, off);
        let prefix = h_explosions(bp, l, r, now, upto - 1);
        let last = Explosion {
            pos: Pos { x: (bp.x + (upto - 1)) as i32, y: bp.y },
            spawned: now,
            kind: h_variant(upto - 1, l, r),
        };
        assert(h_explosions(bp, l, r, now, upto) == prefix + seq![last]);
        lemma_explosion_at_concat(prefix, seq![last], bp.x + off, bp.y as int);
        if off == upto - 1 {
            assert(seq![last][0].pos.x == bp.x + off && seq![last][0].pos.y == bp.y as int);
            assert(explosion_at(seq![last], bp.x + off, bp.y as int));
        } else {
            assert(!explosion_at(seq![last], bp.x + off, bp.y as int));
        }
    }
}

/// The vertical blast segment with boundaries `b ≤ 0 ≤ t` illuminates,
/// on the bomb's column, exactly the cells at the nonzero offsets `b`
/// through `t`; the center cell is owned by the horizontal pass.
pub proof fn lemma_v_explosions_span(bp: Pos, b: int, t: int, now: u64, upto: int, off: int)
    requires
        blast_in_range(bp),
        -EXPLOSION_SIZE as int <= b <= upto,
        upto <= t + 1 <= EXPLOSION_SIZE as int + 1,
        off != 0,
    ensures
        explosion_at(v_explosions(bp, b, t, now, upto), bp.x as int, bp.y + off) <==> b <= off < upto,
    decreases upto - b,
{
    if upto <= b {
    } else {
        lemma_v_explosions_span(bp, b, t, now, upto - 1, off);
        let prefix = v_explosions(bp, b, t, now, upto - 1);
        if upto - 1 == 0 {
            assert(v_explosions(bp, b, t, now, upto) == prefix + Seq::<Explosion>::empty());
            lemma_explosion_at_concat(prefix, Seq::<Explosion>::empty(), bp.x as int, bp.y + off);
        } else {
            let last = Explosion {
                pos: Pos { x: bp.x, y: (bp.y + (upto - 1)) as i32 },
                spawned: now,
                kind: v_variant(upto - 1, b, t),
            };
            assert(v_explosions(bp, b, t, now, upto) == prefix + seq![last]);
            lemma_explosion_at_concat(prefix, seq![last], bp.x as int, bp.y + off);
            if off == upto - 1 {
                assert(seq![last][0].pos.x == bp.x as int && seq![last][0].pos.y == bp.y + off);
                assert(explosion_at(seq![last], bp.x as int, bp.y + off));
            } else {
                assert(!explosion_at(seq![last], bp.x as int, bp.y + off));
            }
        }
    }
}

/// The explosions among the first `kend` still within their fixed
/// lifetime at `now`, keeping their order.
pub open spec fn live_explosions(explosions: Seq<Explosion>, now: u64, kend: int) -> Seq<Explosion>
    decreases kend,
{
    if kend <= 0 {
        Seq::empty()
    } else {
        live_explosions(explosions, now, kend - 1) + if now <= explosions[kend - 1].spawned
            + EXPLOSION_LIFETIME_MS {
            seq![explosions[kend - 1]]
        } else {
            Seq::empty()
        }
    }
}

/// Removes every explosion whose age has passed its fixed lifetime,
/// regardless of its offset from the bomb; afterwards no survivor is
/// older than that lifetime.
pub fn remove_explosion_system(game: &mut Game, now: u64)
    requires
        forall|k: int|
            0 <= k < old(game).explosions@.len() ==> (#[trigger] old(
                game,
            ).explosions@[k]).spawned <= now,
    ensures
        final(game).field == old(game).field,
        final(game).player == old(game).player,
        final(game).enemies == old(game).enemies,
        final(game).bomb == old(game).bomb,
        final(game).walls == old(game).walls,
        final(game).breakable_walls == old(game).breakable_walls,
        final(game).explosions@ == live_explosions(
            old(game).explosions@,
            now,
            old(game).explosions@.len() as int,
        ),
        forall|k: int|
            0 <= k < final(game).explosions@.len() ==> now
                - (#[trigger] final(game).explosions@[k]).spawned <= EXPLOSION_LIFETIME_MS,
{
    let mut kept: Vec<Explosion> = Vec::new();
    let n = game.explosions.len();
    let mut k: usize = 0;
    while k < n
        invariant
            k <= n,
            n == game.explosions@.len(),
            *game == *old(game),
            forall|m: int|
                0 <= m < game.explosions@.len() ==> (#[trigger] game.explosions@[m]).spawned
                    <= now,
            kept@ == live_explosions(game.explosions@, now, k as int),
            forall|m: int|
                0 <= m < kept@.len() ==> now - (#[trigger] kept@[m]).spawned
                    <= EXPLOSION_LIFETIME_MS,
        decreases n - k,
    {
        let e = game.explosions[k];
        if now - e.spawned <= EXPLOSION_LIFETIME_MS {
            kept.push(e);
            proof {
                assert(kept@ =~= live_explosions(game.explosions@, now, k as int + 1));
            }
        } else {
            proof {
                assert(kept@ + Seq::<Explosion>::empty() =~= kept@);
            }
        }
        k = k + 1;
    }
    game.explosions = kept;
}

/// The breakable walls among the first `kend` that no live explosion
/// cell overlaps.
pub open spec fn surviving_breakables(
    walls: Seq<BreakableWall>,
    explosions: Seq<Explosion>,
    kend: int,
) -> Seq<BreakableWall>
    decreases kend,
{
    if kend <= 0 {
        Seq::empty()
    } else {
        surviving_breakables(walls, explosions, kend - 1) + if !explosion_at(
            explosions,
            walls[kend - 1].pos.x as int,
            walls[kend - 1].pos.y as int,
        ) {
            seq![walls[kend - 1]]
        } else {
            Seq::empty()
        }
    }
}

/// The enemies among the first `kend` that no live explosion cell
/// overlaps.
pub open spec fn surviving_enemies(
    enemies: Seq<Enemy>,
    explosions: Seq<Explosion>,
    kend: int,
) -> Seq<Enemy>
    decreases kend,
{
    if kend <= 0 {
        Seq::empty()
    } else {
        surviving_enemies(enemies, explosions, kend - 1) + if !explosion_at(
            explosions,
            enemies[kend - 1].pos.x as int,
            enemies[kend - 1].pos.y as int,
        ) {
            seq![enemies[kend - 1]]
        } else {
            Seq::empty()
        }
    }
}

/// The player after the blast-overlap check at `now`: standing on a live
/// explosion cell outside the cooldown window costs one hit of `DAMAGE`,
/// records the hit time and raises the damage flash.
pub open spec fn blast_damaged(p: Player, explosions: Seq<Explosion>, now: u64) -> Player {
    if explosion_at(explosions, p.pos.x as int, p.pos.y as int) && now > p.last_hit
        + HIT_COOLDOWN_MS {
        Player {
            health: damaged_health(p.health as int, DAMAGE as int) as i32,
            last_hit: now,
            flash: true,
            ..p
        }
    } else {
        p
    }
}

/// Each tick, every destructible entity — breakable walls and enemies —
/// overlapping a live explosion cell despawns that same tick; removal
/// happens at most once however many cells overlap. Indestructible
/// walls never participate. A player on an explosion cell takes one hit
/// of `DAMAGE`, gated by the invulnerability window since the last
/// recorded hit, which also bounds damage to one event per tick.
pub fn explosion_destruction_system(game: &mut Game, now: u64)
    requires
        old(game).player matches Some(p) ==> p.last_hit <= now,
    ensures
        final(game).field == old(game).field,
        final(game).bomb == old(game).bomb,
        final(game).walls == old(game).walls,
        final(game).explosions == old(game).explosions,
        final(game).breakable_walls@ == surviving_breakables(
            old(game).breakable_walls@,
            old(game).explosions@,
            old(game).breakable_walls@.len() as int,
        ),
        final(game).enemies@ == surviving_enemies(
            old(game).enemies@,
            old(game).explosions@,
            old(game).enemies@.len() as int,
        ),
        match old(game).player {
            None => final(game).player == old(game).player,
            Some(p) => final(game).player == Some(blast_damaged(p, old(game).explosions@, now)),
        },
        old(game).player matches Some(p) ==> final(game).player matches Some(q) && q.health
            <= p.health,
        (old(game).player matches Some(p) && final(game).player matches Some(q) && q.health
            != p.health) ==> (now > old(game).player.unwrap().last_hit + HIT_COOLDOWN_MS
            && final(game).player.unwrap().last_hit == now),
{
    let mut kept_walls: Vec<BreakableWall> = Vec::new();
    let wn = game.breakable_walls.len();
    let mut k: usize = 0;
    while k < wn
        invariant
            k <= wn,
            wn == game.breakable_walls@.len(),
            *game == *old(game),
            kept_walls@ == surviving_breakables(
                game.breakable_walls@,
                game.explosions@,
                k as int,
            ),
        decreases wn - k,
    {
        let w = game.breakable_walls[k];
        if !is_explosion_at(&game.explosions, w.pos.x, w.pos.y) {
            kept_walls.push(w);
            proof {
                assert(kept_walls@ =~= surviving_breakables(
                    game.breakable_walls@,
                    game.explosions@,
                    k as int + 1,
                ));
            }
        } else {
            proof {
                assert(kept_walls@ + Seq::<BreakableWall>::empty() =~= kept_walls@);
            }
        }
        k = k + 1;
    }
    let mut kept_enemies: Vec<Enemy> = Vec::new();
    let en = game.enemies.len();
    let mut k2: usize = 0;
    while k2 < en
        invariant
            k2 <= en,
            en == game.enemies@.len(),
            *game == *old(game),
            kept_enemies@ == surviving_enemies(game.enemies@, game.explosions@, k2 as int),
        decreases en - k2,
    {
        let e = game.enemies[k2];
        if !is_explosion_at(&game.explosions, e.pos.x, e.pos.y) {
            kept_enemies.push(e);
            proof {
                assert(kept_enemies@ =~= surviving_enemies(
                    game.enemies@,
                    game.explosions@,
                    k2 as int + 1,
                ));
            }
        } else {
            proof {
                assert(kept_enemies@ + Seq::<Enemy>::empty() =~= kept_enemies@);
            }
        }
        k2 = k2 + 1;
    }
    let player = game.player;
    match player {
        None => {},
        Some(p) => {
            if is_explosion_at(&game.explosions, p.pos.x, p.pos.y) && now - p.last_hit
                > HIT_COOLDOWN_MS {
                let rest: i64 = p.health as i64 - DAMAGE as i64;
                let health: i32 = if rest < i32::MIN as i64 {
                    i32::MIN
                } else {
                    rest as i32
                };
                game.player = Some(Player { health, last_hit: now, flash: true, ..p });
            }
        },
    }
    game.breakable_walls = kept_walls;
    game.enemies = kept_enemies;
}

} // verus!
