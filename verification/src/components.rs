use vstd::prelude::*;

use crate::constants::{PLAYER_START_HEALTH, SIZE_IN_CELLS};

verus! {

/// A lattice cell coordinate. The first grid index (the row of the level
/// source) runs along `x`, the second along `y`; one step in a cardinal
/// direction changes exactly one coordinate by exactly one.
#[derive(Clone, Copy, PartialEq, Eq, Structural, Debug)]
pub struct Pos {
    pub x: i32,
    pub y: i32,
}

/// A cardinal direction of a one-cell step.
#[derive(Clone, Copy, PartialEq, Eq, Structural, Debug)]
pub enum Dir {
    East,
    North,
    West,
    South,
}

/// The axis a blast segment runs along.
#[derive(Clone, Copy, PartialEq, Eq, Structural, Debug)]
pub enum Axis {
    Horizontal,
    Vertical,
}

/// Visual variant of one explosion cell: the bomb's own cell, an interior
/// segment cell along an axis, or a segment end oriented toward the
/// direction the segment was cut off in.
#[derive(Clone, Copy, PartialEq, Eq, Structural, Debug)]
pub enum ExplosionKind {
    Center,
    Body(Axis),
    End(Dir),
}

/// Per-actor transition state: a mover accepts a new step only while
/// `Idle`; a committed step parks it in `Moving` until the display
/// transition of that step has run its fixed duration.
#[derive(Clone, Copy, PartialEq, Eq, Structural, Debug)]
pub enum Motion {
    Idle,
    Moving { start: Pos, end: Pos, started: u64 },
}

/// Code of one grid cell, as parsed from the level source.
#[derive(Clone, Copy, PartialEq, Eq, Structural, Debug)]
pub enum CellCode {
    Empty,
    Wall,
    BreakableWall,
    EnemySpawn,
    PlayerSpawn,
}

/// The player: position, non-increasing integer health, the timestamp of
/// the last damaging hit, the damage-flash visual state, the facing
/// recorded by the last accepted step, and the transition state.
#[derive(Clone, Copy, PartialEq, Eq, Structural, Debug)]
pub struct Player {
    pub pos: Pos,
    pub health: i32,
    pub last_hit: u64,
    pub flash: bool,
    pub facing: Dir,
    pub motion: Motion,
}

/// An enemy: solid toward the player, destructible, never blocking other
/// enemies.
#[derive(Clone, Copy, PartialEq, Eq, Structural, Debug)]
pub struct Enemy {
    pub pos: Pos,
    pub motion: Motion,
}

/// The single active bomb: solid, armed at `spawned`.
#[derive(Clone, Copy, PartialEq, Eq, Structural, Debug)]
pub struct Bomb {
    pub pos: Pos,
    pub spawned: u64,
}

/// One live explosion cell, removed a fixed lifetime after `spawned`.
#[derive(Clone, Copy, PartialEq, Eq, Structural, Debug)]
pub struct Explosion {
    pub pos: Pos,
    pub spawned: u64,
    pub kind: ExplosionKind,
}

/// An indestructible wall: solid, stops a blast, never destroyed.
#[derive(Clone, Copy, PartialEq, Eq, Structural, Debug)]
pub struct Wall {
    pub pos: Pos,
}

/// A breakable wall: solid and destructible; it does not stop a blast.
#[derive(Clone, Copy, PartialEq, Eq, Structural, Debug)]
pub struct BreakableWall {
    pub pos: Pos,
}

/// The static layout: the cell grid, the two one-shot gates of the
/// load/spawn pipeline, and the monotonically increasing level counter.
pub struct Field {
    pub cells: Vec<Vec<CellCode>>,
    pub loaded: bool,
    pub spawned: bool,
    pub current_level: u32,
}

impl Field {
    /// The grid as a mathematical sequence of rows.
    pub open spec fn grid(self) -> Seq<Seq<CellCode>> {
        self.cells@.map_values(|r: Vec<CellCode>| r@)
    }

    /// The grid is a full square of `SIZE_IN_CELLS` rows of that length.
    pub open spec fn wf(self) -> bool {
        &&& self.grid().len() == SIZE_IN_CELLS as int
        &&& forall|i: int|
            0 <= i < SIZE_IN_CELLS as int ==> #[trigger] self.grid()[i].len()
                == SIZE_IN_CELLS as int
    }
}

/// The whole simulated population together with the field: one optional
/// player, the enemies, at most one bomb, the live explosion cells, and
/// the two kinds of walls.
pub struct Game {
    pub field: Field,
    pub player: Option<Player>,
    pub enemies: Vec<Enemy>,
    pub bomb: Option<Bomb>,
    pub explosions: Vec<Explosion>,
    pub walls: Vec<Wall>,
    pub breakable_walls: Vec<BreakableWall>,
}

impl Game {
    pub open spec fn wf(self) -> bool {
        self.field.wf()
    }
}

/// The all-empty square grid, the degenerate result of a malformed level
/// source.
pub open spec fn all_empty_grid() -> Seq<Seq<CellCode>> {
    Seq::new(
        SIZE_IN_CELLS as nat,
        |i: int| Seq::new(SIZE_IN_CELLS as nat, |j: int| CellCode::Empty),
    )
}

/// Some indestructible wall occupies the cell `(x, y)`.
pub open spec fn wall_at(walls: Seq<Wall>, x: int, y: int) -> bool {
    exists|k: int|
        0 <= k < walls.len() && (#[trigger] walls[k]).pos.x == x && walls[k].pos.y == y
}

/// Some breakable wall occupies the cell `(x, y)`.
pub open spec fn breakable_at(walls: Seq<BreakableWall>, x: int, y: int) -> bool {
    exists|k: int|
        0 <= k < walls.len() && (#[trigger] walls[k]).pos.x == x && walls[k].pos.y == y
}

/// Some enemy occupies the cell `(x, y)`.
pub open spec fn enemy_at(enemies: Seq<Enemy>, x: int, y: int) -> bool {
    exists|k: int|
        0 <= k < enemies.len() && (#[trigger] enemies[k]).pos.x == x && enemies[k].pos.y == y
}

/// The bomb, if any, occupies the cell `(x, y)`.
pub open spec fn bomb_at(bomb: Option<Bomb>, x: int, y: int) -> bool {
    bomb is Some && bomb.unwrap().pos.x == x && bomb.unwrap().pos.y == y
}

/// Some live explosion cell occupies the cell `(x, y)`.
pub open spec fn explosion_at(explosions: Seq<Explosion>, x: int, y: int) -> bool {
    exists|k: int|
        0 <= k < explosions.len() && (#[trigger] explosions[k]).pos.x == x
            && explosions[k].pos.y == y
}

/// A solid entity blocks the cell for the player: indestructible walls,
/// breakable walls, enemies and the bomb are solid; the player and the
/// explosions are not.
pub open spec fn solid_at(g: Game, x: int, y: int) -> bool {
    ||| wall_at(g.walls@, x, y)
    ||| breakable_at(g.breakable_walls@, x, y)
    ||| enemy_at(g.enemies@, x, y)
    ||| bomb_at(g.bomb, x, y)
}

/// What blocks an enemy's step: every solid but the enemies themselves.
pub open spec fn solid_for_enemy_at(g: Game, x: int, y: int) -> bool {
    ||| wall_at(g.walls@, x, y)
    ||| breakable_at(g.breakable_walls@, x, y)
    ||| bomb_at(g.bomb, x, y)
}

/// True iff some indestructible wall occupies `(x, y)`.
pub fn is_wall_at(walls: &Vec<Wall>, x: i32, y: i32) -> (r: bool)
    ensures
        r == wall_at(walls@, x as int, y as int),
{
    let mut k: usize = 0;
    while k < walls.len()
        invariant
            k <= walls@.len(),
            forall|m: int|
                0 <= m < k as int ==> !((#[trigger] walls@[m]).pos.x == x && walls@[m].pos.y == y),
        decreases walls@.len() - k,
    {
        if walls[k].pos.x == x && walls[k].pos.y == y {
            return true;
        }
        k = k + 1;
    }
    false
}

/// True iff some breakable wall occupies `(x, y)`.
pub fn is_breakable_at(walls: &Vec<BreakableWall>, x: i32, y: i32) -> (r: bool)
    ensures
        r == breakable_at(walls@, x as int, y as int),
{
    let mut k: usize = 0;
    while k < walls.len()
        invariant
            k <= walls@.len(),
            forall|m: int|
                0 <= m < k as int ==> !((#[trigger] walls@[m]).pos.x == x && walls@[m].pos.y == y),
        decreases walls@.len() - k,
    {
        if walls[k].pos.x == x && walls[k].pos.y == y {
            return true;
        }
        k = k + 1;
    }
    false
}

/// True iff some enemy occupies `(x, y)`.
pub fn is_enemy_at(enemies: &Vec<Enemy>, x: i32, y: i32) -> (r: bool)
    ensures
        r == enemy_at(enemies@, x as int, y as int),
{
    let mut k: usize = 0;
    while k < enemies.len()
        invariant
            k <= enemies@.len(),
            forall|m: int|
                0 <= m < k as int ==> !((#[trigger] enemies@[m]).pos.x == x && enemies@[m].pos.y
                    == y),
        decreases enemies@.len() - k,
    {
        if enemies[k].pos.x == x && enemies[k].pos.y == y {
            return true;
        }
        k = k + 1;
    }
    false
}

/// True iff the bomb exists and occupies `(x, y)`.
pub fn is_bomb_at(bomb: &Option<Bomb>, x: i32, y: i32) -> (r: bool)
    ensures
        r == bomb_at(*bomb, x as int, y as int),
{
    match bomb {
        Some(b) => b.pos.x == x && b.pos.y == y,
        None => false,
    }
}

/// True iff some live explosion cell occupies `(x, y)`.
pub fn is_explosion_at(explosions: &Vec<Explosion>, x: i32, y: i32) -> (r: bool)
    ensures
        r == explosion_at(explosions@, x as int, y as int),
{
    let mut k: usize = 0;
    while k < explosions.len()
        invariant
            k <= explosions@.len(),
            forall|m: int|
                0 <= m < k as int ==> !((#[trigger] explosions@[m]).pos.x == x
                    && explosions@[m].pos.y == y),
        decreases explosions@.len() - k,
    {
        if explosions[k].pos.x == x && explosions[k].pos.y == y {
            return true;
        }
        k = k + 1;
    }
    false
}

/// True iff a solid entity blocks `(x, y)` for the player.
pub fn is_solid_at(g: &Game, x: i32, y: i32) -> (r: bool)
    ensures
        r == solid_at(*g, x as int, y as int),
{
    is_wall_at(&g.walls, x, y) || is_breakable_at(&g.breakable_walls, x, y) || is_enemy_at(
        &g.enemies,
        x,
        y,
    ) || is_bomb_at(&g.bomb, x, y)
}

/// True iff a solid entity blocks `(x, y)` for an enemy; enemies do not
/// block each other.
pub fn is_solid_for_enemy_at(g: &Game, x: i32, y: i32) -> (r: bool)
    ensures
        r == solid_for_enemy_at(*g, x as int, y as int),
{
    is_wall_at(&g.walls, x, y) || is_breakable_at(&g.breakable_walls, x, y) || is_bomb_at(
        &g.bomb,
        x,
        y,
    )
}

/// Change of the `x` coordinate of a one-cell step in direction `d`.
pub open spec fn dx_of(d: Dir) -> int {
    match d {
        Dir::East => 1,
        Dir::West => -1,
        _ => 0,
    }
}

/// Change of the `y` coordinate of a one-cell step in direction `d`.
pub open spec fn dy_of(d: Dir) -> int {
    match d {
        Dir::North => 1,
        Dir::South => -1,
        _ => 0,
    }
}

/// The player record an occupied spawn cell materializes.
pub open spec fn spawned_player(p: Pos, now: u64) -> Player {
    Player {
        pos: p,
        health: PLAYER_START_HEALTH,
        last_hit: now,
        flash: false,
        facing: Dir::South,
        motion: Motion::Idle,
    }
}

/// One row of empty cells.
fn empty_row() -> (r: Vec<CellCode>)
    ensures
        r@ == Seq::new(SIZE_IN_CELLS as nat, |j: int| CellCode::Empty),
{
    let mut r: Vec<CellCode> = Vec::new();
    let mut j: usize = 0;
    while j < SIZE_IN_CELLS
        invariant
            j <= SIZE_IN_CELLS,
            r@.len() == j as int,
            forall|m: int| 0 <= m < j as int ==> r@[m] == CellCode::Empty,
        decreases SIZE_IN_CELLS - j,
    {
        r.push(CellCode::Empty);
        j = j + 1;
    }
    proof {
        assert(r@ =~= Seq::new(SIZE_IN_CELLS as nat, |j: int| CellCode::Empty));
    }
    r
}

/// The all-empty square grid as an executable value.
pub fn empty_grid() -> (g: Vec<Vec<CellCode>>)
    ensures
        g@.map_values(|r: Vec<CellCode>| r@) == all_empty_grid(),
{
    let mut g: Vec<Vec<CellCode>> = Vec::new();
    let mut i: usize = 0;
    while i < SIZE_IN_CELLS
        invariant
            i <= SIZE_IN_CELLS,
            g@.len() == i as int,
            forall|m: int|
                0 <= m < i as int ==> #[trigger] g@[m]@ == Seq::new(
                    SIZE_IN_CELLS as nat,
                    |j: int| CellCode::Empty,
                ),
        decreases SIZE_IN_CELLS - i,
    {
        let row = empty_row();
        g.push(row);
        i = i + 1;
    }
    proof {
        assert(g@.map_values(|r: Vec<CellCode>| r@) =~~= all_empty_grid());
    }
    g
}

impl Game {
    /// A fresh simulation at the first level: nothing loaded, nothing
    /// spawned, no entities alive.
    pub fn new() -> (g: Game)
        ensures
            g.field.grid() == all_empty_grid(),
            !g.field.loaded,
            !g.field.spawned,
            g.field.current_level == 1u32,
            g.player is None,
            g.enemies@.len() == 0,
            g.bomb is None,
            g.explosions@.len() == 0,
            g.walls@.len() == 0,
            g.breakable_walls@.len() == 0,
            g.wf(),
    {
        let g = Game {
            field: Field {
                cells: empty_grid(),
                loaded: false,
                spawned: false,
                current_level: 1,
            },
            player: None,
            enemies: Vec::new(),
            bomb: None,
            explosions: Vec::new(),
            walls: Vec::new(),
            breakable_walls: Vec::new(),
        };
        proof {
            assert(g.field.grid() =~~= all_empty_grid());
        }
        g
    }
}

} // verus!
