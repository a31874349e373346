use vstd::prelude::*;

use crate::components::{
    all_empty_grid, empty_grid, spawned_player, BreakableWall, CellCode, Enemy, Field, Game,
    Motion, Player, Pos, Wall,
};
use crate::constants::SIZE_IN_CELLS;

verus! {

/// Cell code of one source character; every unrecognized character
/// denotes an empty cell.
pub open spec fn code_of(c: char) -> CellCode {
    if c == 'W' {
        CellCode::Wall
    } else if c == 'B' {
        CellCode::BreakableWall
    } else if c == 'E' {
        CellCode::EnemySpawn
    } else if c == 'S' {
        CellCode::PlayerSpawn
    } else {
        CellCode::Empty
    }
}

/// The source split at newline characters: one entry per segment, with
/// an empty trailing segment after a final newline, exactly as splitting
/// a string at a separator yields it.
pub open spec fn lines_of(s: Seq<char>) -> Seq<Seq<char>>
    decreases s.len(),
{
    if s.len() == 0 {
        seq![Seq::<char>::empty()]
    } else if s[0] == '\n' {
        seq![Seq::<char>::empty()] + lines_of(s.skip(1))
    } else {
        let rest = lines_of(s.skip(1));
        seq![seq![s[0]] + rest[0]] + rest.skip(1)
    }
}

pub proof fn lemma_lines_nonempty(s: Seq<char>)
    ensures
        lines_of(s).len() >= 1,
    decreases s.len(),
{
    if s.len() == 0 {
    } else if s[0] == '\n' {
    } else {
        lemma_lines_nonempty(s.skip(1));
    }
}

/// A source is well-formed iff it splits into exactly `SIZE_IN_CELLS`
/// rows of exactly `SIZE_IN_CELLS` characters each.
pub open spec fn level_valid(s: Seq<char>) -> bool {
    &&& lines_of(s).len() == SIZE_IN_CELLS as int
    &&& forall|i: int|
        0 <= i < SIZE_IN_CELLS as int ==> (#[trigger] lines_of(s)[i]).len() == SIZE_IN_CELLS as int
}

/// The grid a source parses to: the per-character cell codes when the
/// source is well-formed, the all-empty grid otherwise.
pub open spec fn parse_spec(s: Seq<char>) -> Seq<Seq<CellCode>> {
    if level_valid(s) {
        Seq::new(
            SIZE_IN_CELLS as nat,
            |i: int| Seq::new(SIZE_IN_CELLS as nat, |j: int| code_of(lines_of(s)[i][j])),
        )
    } else {
        all_empty_grid()
    }
}

/// Parsing is deterministic: the grid is a function of the source alone.
pub proof fn lemma_parse_deterministic(s1: Seq<char>, s2: Seq<char>)
    requires
        s1 == s2,
    ensures
        parse_spec(s1) == parse_spec(s2),
{
}

/// On a well-formed source every character round-trips to its defined
/// cell code.
pub proof fn lemma_parse_round_trip(s: Seq<char>, i: int, j: int)
    requires
        level_valid(s),
        0 <= i < SIZE_IN_CELLS as int,
        0 <= j < SIZE_IN_CELLS as int,
    ensures
        parse_spec(s)[i][j] == code_of(lines_of(s)[i][j]),
{
}

/// A source whose row count or any row length differs from
/// `SIZE_IN_CELLS` yields a grid with every cell empty.
pub proof fn lemma_parse_malformed(s: Seq<char>, i: int, j: int)
    requires
        !level_valid(s),
        0 <= i < SIZE_IN_CELLS as int,
        0 <= j < SIZE_IN_CELLS as int,
    ensures
        parse_spec(s)[i][j] == CellCode::Empty,
{
}

/// The first of `ls` extended at the front by `c`; the rest unchanged.
spec fn prepend_first(c: Seq<char>, ls: Seq<Seq<char>>) -> Seq<Seq<char>> {
    seq![c + ls[0]] + ls.skip(1)
}

fn code_of_char(c: char) -> (r: CellCode)
    ensures
        r == code_of(c),
{
    if c == 'W' {
        CellCode::Wall
    } else if c == 'B' {
        CellCode::BreakableWall
    } else if c == 'E' {
        CellCode::EnemySpawn
    } else if c == 'S' {
        CellCode::PlayerSpawn
    } else {
        CellCode::Empty
    }
}

/// Splits the source at newline characters by one forward scan.
fn split_lines(src: &[char]) -> (lines: Vec<Vec<char>>)
    ensures
        lines@.map_values(|l: Vec<char>| l@) == lines_of(src@),
{
    let ghost s = src@;
    let mut done: Vec<Vec<char>> = Vec::new();
    let mut cur: Vec<char> = Vec::new();
    let mut idx: usize = 0;
    proof {
        assert(s.skip(0) =~= s);
        assert(done@.map_values(|l: Vec<char>| l@) + prepend_first(cur@, lines_of(s)) =~~= lines_of(
            s,
        ));
    }
    while idx < src.len()
        invariant
            idx <= src.len(),
            s == src@,
            lines_of(s) == done@.map_values(|l: Vec<char>| l@) + prepend_first(
                cur@,
                lines_of(s.skip(idx as int)),
            ),
        decreases src.len() - idx,
    {
        let ghost done0 = done@;
        let ghost cur0 = cur@;
        let ghost tail = s.skip(idx as int);
        let ghost rest = s.skip(idx as int + 1);
        let c = src[idx];
        proof {
            assert(tail.len() > 0);
            assert(tail[0] == s[idx as int]);
            assert(tail.skip(1) =~= rest);
            lemma_lines_nonempty(rest);
        }
        if c == '\n' {
            done.push(cur);
            cur = Vec::new();
            proof {
                assert(lines_of(tail) == seq![Seq::<char>::empty()] + lines_of(rest));
                assert(done@.map_values(|l: Vec<char>| l@) =~= done0.map_values(
                    |l: Vec<char>| l@,
                ).push(cur0));
                assert(done@.map_values(|l: Vec<char>| l@) + prepend_first(cur@, lines_of(rest))
                    =~~= done0.map_values(|l: Vec<char>| l@) + prepend_first(
                    cur0,
                    lines_of(tail),
                ));
            }
        } else {
            cur.push(c);
            proof {
                let lr = lines_of(rest);
                assert(lines_of(tail) == seq![seq![tail[0]] + lr[0]] + lr.skip(1));
                assert(cur@ + lr[0] =~= cur0 + (seq![tail[0]] + lr[0]));
                assert(done@.map_values(|l: Vec<char>| l@) + prepend_first(cur@, lr) =~~= done0
                    .map_values(|l: Vec<char>| l@) + prepend_first(cur0, lines_of(tail)));
            }
        }
        idx = idx + 1;
    }
    done.push(cur);
    proof {
        let ghost tail = s.skip(idx as int);
        assert(tail =~= Seq::<char>::empty());
        assert(lines_of(tail) == seq![Seq::<char>::empty()]);
        assert(lines_of(s) =~~= done@.map_values(|l: Vec<char>| l@));
    }
    done
}

/// Parses a level source into the cell grid. A well-formed source (the
/// full square of rows) maps character by character to cell codes; a
/// source with any other shape yields the all-empty grid.
pub fn create_level_from_string(src: &[char]) -> (grid: Vec<Vec<CellCode>>)
    ensures
        grid@.map_values(|r: Vec<CellCode>| r@) == parse_spec(src@),
        grid@.len() == SIZE_IN_CELLS,
        forall|i: int| 0 <= i < SIZE_IN_CELLS as int ==> #[trigger] grid@[i]@.len() == SIZE_IN_CELLS as int,
{
    let lines = split_lines(src);
    let ghost ls = lines_of(src@);
    let mut ok: bool = lines.len() == SIZE_IN_CELLS;
    let mut i: usize = 0;
    while i < lines.len()
        invariant
            i <= lines.len(),
            lines@.map_values(|l: Vec<char>| l@) == ls,
            ok == (lines@.len() == SIZE_IN_CELLS as int && forall|m: int|
                0 <= m < i as int ==> (#[trigger] ls[m]).len() == SIZE_IN_CELLS as int),
        decreases lines.len() - i,
    {
        proof {
            assert(ls[i as int] == lines@.map_values(|l: Vec<char>| l@)[i as int]);
        }
        if lines[i].len() != SIZE_IN_CELLS {
            ok = false;
        }
        i = i + 1;
    }
    proof {
        assert(lines@.len() == ls.len());
        assert(ok == level_valid(src@));
    }
    if ok {
        let mut grid: Vec<Vec<CellCode>> = Vec::new();
        let mut r: usize = 0;
        while r < SIZE_IN_CELLS
            invariant
                r <= SIZE_IN_CELLS,
                ls == lines_of(src@),
                level_valid(src@),
                lines@.map_values(|l: Vec<char>| l@) == ls,
                lines@.len() == SIZE_IN_CELLS as int,
                grid@.len() == r as int,
                forall|m: int|
                    0 <= m < r as int ==> #[trigger] grid@[m]@ == Seq::new(
                        SIZE_IN_CELLS as nat,
                        |j: int| code_of(ls[m][j]),
                    ),
            decreases SIZE_IN_CELLS - r,
        {
            proof {
                assert(ls[r as int] == lines@.map_values(|l: Vec<char>| l@)[r as int]);
                assert(lines_of(src@)[r as int].len() == SIZE_IN_CELLS as int);
            }
            let line = &lines[r];
            proof {
                assert(line@ == ls[r as int]);
                assert(line@.len() == SIZE_IN_CELLS as int);
            }
            let mut row: Vec<CellCode> = Vec::new();
            let mut j: usize = 0;
            while j < SIZE_IN_CELLS
                invariant
                    j <= SIZE_IN_CELLS,
                    line@.len() == SIZE_IN_CELLS as int,
                    row@.len() == j as int,
                    forall|m: int| 0 <= m < j as int ==> #[trigger] row@[m] == code_of(line@[m]),
                decreases SIZE_IN_CELLS - j,
            {
                let code = code_of_char(line[j]);
                row.push(code);
                j = j + 1;
            }
            proof {
                assert(line@ == ls[r as int]);
                assert(row@ =~= Seq::new(SIZE_IN_CELLS as nat, |j: int| code_of(ls[r as int][j])));
            }
            grid.push(row);
            r = r + 1;
        }
        proof {
            assert(grid@.map_values(|x: Vec<CellCode>| x@) =~~= parse_spec(src@));
        }
        grid
    } else {
        let grid = empty_grid();
        proof {
            assert(grid@.map_values(|x: Vec<CellCode>| x@) == all_empty_grid());
            assert(grid@.len() == SIZE_IN_CELLS as int);
            assert(forall|m: int|
                0 <= m < SIZE_IN_CELLS as int ==> #[trigger] grid@[m]@.len()
                    == SIZE_IN_CELLS as int) by {
                assert(forall|m: int|
                    0 <= m < SIZE_IN_CELLS as int ==> #[trigger] grid@[m]@ == grid@.map_values(
                        |x: Vec<CellCode>| x@,
                    )[m]);
            }
        }
        grid
    }
}

/// Fills the grid from the level source once; gated by the `loaded`
/// flag, so repeated invocation performs no redundant work.
pub fn load_field_system(field: &mut Field, source: &[char])
    ensures
        old(field).loaded ==> *final(field) == *old(field),
        !old(field).loaded ==> {
            &&& final(field).grid() == parse_spec(source@)
            &&& final(field).loaded
            &&& final(field).spawned == old(field).spawned
            &&& final(field).current_level == old(field).current_level
            &&& final(field).wf()
        },
{
    if !field.loaded {
        field.cells = create_level_from_string(source);
        field.loaded = true;
        proof {
            assert(forall|i: int|
                0 <= i < SIZE_IN_CELLS as int ==> #[trigger] field.grid()[i].len()
                    == SIZE_IN_CELLS as int) by {
                assert(forall|i: int|
                    0 <= i < SIZE_IN_CELLS as int ==> field.grid()[i] == #[trigger] field.cells@[i]@);
            }
        }
    }
}

/// Positions of the cells of `code` in row `i` left of column `jend`,
/// in column order.
pub open spec fn row_hits(row: Seq<CellCode>, i: int, code: CellCode, jend: int) -> Seq<Pos>
    decreases jend,
{
    if jend <= 0 {
        Seq::empty()
    } else {
        row_hits(row, i, code, jend - 1) + if row[jend - 1] == code {
            seq![(Pos { x: i as i32, y: (jend - 1) as i32 })]
        } else {
            Seq::empty()
        }
    }
}

/// Positions of the cells of `code` in the rows before `iend`, row-major.
pub open spec fn grid_hits(grid: Seq<Seq<CellCode>>, code: CellCode, iend: int) -> Seq<Pos>
    decreases iend,
{
    if iend <= 0 {
        Seq::empty()
    } else {
        grid_hits(grid, code, iend - 1) + row_hits(
            grid[iend - 1],
            iend - 1,
            code,
            SIZE_IN_CELLS as int,
        )
    }
}

/// The last player-spawn cell of row `i` before column `jend`, if any.
pub open spec fn row_last_spawn(row: Seq<CellCode>, i: int, jend: int) -> Option<Pos>
    decreases jend,
{
    if jend <= 0 {
        None
    } else if row[jend - 1] == CellCode::PlayerSpawn {
        Some(Pos { x: i as i32, y: (jend - 1) as i32 })
    } else {
        row_last_spawn(row, i, jend - 1)
    }
}

/// The second choice when present, the first otherwise.
pub open spec fn opt_or(first: Option<Pos>, second: Option<Pos>) -> Option<Pos> {
    if second is Some {
        second
    } else {
        first
    }
}

/// The last player-spawn cell of the rows before `iend`, row-major.
pub open spec fn grid_last_spawn(grid: Seq<Seq<CellCode>>, iend: int) -> Option<Pos>
    decreases iend,
{
    if iend <= 0 {
        None
    } else {
        opt_or(
            grid_last_spawn(grid, iend - 1),
            row_last_spawn(grid[iend - 1], iend - 1, SIZE_IN_CELLS as int),
        )
    }
}

/// Wall records at the given positions.
pub open spec fn walls_of(ps: Seq<Pos>) -> Seq<Wall> {
    ps.map_values(|p: Pos| Wall { pos: p })
}

/// Breakable-wall records at the given positions.
pub open spec fn breakables_of(ps: Seq<Pos>) -> Seq<BreakableWall> {
    ps.map_values(|p: Pos| BreakableWall { pos: p })
}

/// Idle enemy records at the given positions.
pub open spec fn enemies_of(ps: Seq<Pos>) -> Seq<Enemy> {
    ps.map_values(|p: Pos| Enemy { pos: p, motion: Motion::Idle })
}

/// The player after spawning: a fresh record at the spawn cell when the
/// grid names one, the previous player otherwise.
pub open spec fn merged_player(base: Option<Player>, hit: Option<Pos>, now: u64) -> Option<Player> {
    match hit {
        Some(p) => Some(spawned_player(p, now)),
        None => base,
    }
}

proof fn lemma_walls_of_add(a: Seq<Pos>, b: Seq<Pos>)
    ensures
        walls_of(a + b) == walls_of(a) + walls_of(b),
{
    assert(walls_of(a + b) =~= walls_of(a) + walls_of(b));
}

proof fn lemma_breakables_of_add(a: Seq<Pos>, b: Seq<Pos>)
    ensures
        breakables_of(a + b) == breakables_of(a) + breakables_of(b),
{
    assert(breakables_of(a + b) =~= breakables_of(a) + breakables_of(b));
}

proof fn lemma_enemies_of_add(a: Seq<Pos>, b: Seq<Pos>)
    ensures
        enemies_of(a + b) == enemies_of(a) + enemies_of(b),
{
    assert(enemies_of(a + b) =~= enemies_of(a) + enemies_of(b));
}

/// Materializes one entity per non-empty grid cell, row-major: walls,
/// breakable walls, idle enemies, and the player at the last spawn cell.
/// Gated by the `spawned` flag and runs only on a loaded field, so
/// repeated invocation performs no redundant work.
pub fn spawn_field_system(game: &mut Game, now: u64)
    requires
        old(game).wf(),
    ensures
        final(game).wf(),
        !(old(game).field.loaded && !old(game).field.spawned) ==> *final(game) == *old(game),
        (old(game).field.loaded && !old(game).field.spawned) ==> {
            let grid = old(game).field.grid();
            &&& final(game).field.cells == old(game).field.cells
            &&& final(game).field.loaded
            &&& final(game).field.spawned
            &&& final(game).field.current_level == old(game).field.current_level
            &&& final(game).walls@ == old(game).walls@ + walls_of(
                grid_hits(grid, CellCode::Wall, SIZE_IN_CELLS as int),
            )
            &&& final(game).breakable_walls@ == old(game).breakable_walls@ + breakables_of(
                grid_hits(grid, CellCode::BreakableWall, SIZE_IN_CELLS as int),
            )
            &&& final(game).enemies@ == old(game).enemies@ + enemies_of(
                grid_hits(grid, CellCode::EnemySpawn, SIZE_IN_CELLS as int),
            )
            &&& final(game).player == merged_player(
                old(game).player,
                grid_last_spawn(grid, SIZE_IN_CELLS as int),
                now,
            )
            &&& final(game).bomb == old(game).bomb
            &&& final(game).explosions == old(game).explosions
        },
{
    if game.field.loaded && !game.field.spawned {
        let ghost grid = game.field.grid();
        let mut i: usize = 0;
        while i < SIZE_IN_CELLS
            invariant
                i <= SIZE_IN_CELLS,
                old(game).wf(),
                grid == old(game).field.grid(),
                game.field == old(game).field,
                game.bomb == old(game).bomb,
                game.explosions == old(game).explosions,
                game.walls@ == old(game).walls@ + walls_of(
                    grid_hits(grid, CellCode::Wall, i as int),
                ),
                game.breakable_walls@ == old(game).breakable_walls@ + breakables_of(
                    grid_hits(grid, CellCode::BreakableWall, i as int),
                ),
                game.enemies@ == old(game).enemies@ + enemies_of(
                    grid_hits(grid, CellCode::EnemySpawn, i as int),
                ),
                game.player == merged_player(
                    old(game).player,
                    grid_last_spawn(grid, i as int),
                    now,
                ),
            decreases SIZE_IN_CELLS - i,
        {
            let ghost row = grid[i as int];
            let mut j: usize = 0;
            proof {
                assert(grid_hits(grid, CellCode::Wall, i as int) + row_hits(
                    row,
                    i as int,
                    CellCode::Wall,
                    0,
                ) =~= grid_hits(grid, CellCode::Wall, i as int));
                assert(grid_hits(grid, CellCode::BreakableWall, i as int) + row_hits(
                    row,
                    i as int,
                    CellCode::BreakableWall,
                    0,
                ) =~= grid_hits(grid, CellCode::BreakableWall, i as int));
                assert(grid_hits(grid, CellCode::EnemySpawn, i as int) + row_hits(
                    row,
                    i as int,
                    CellCode::EnemySpawn,
                    0,
                ) =~= grid_hits(grid, CellCode::EnemySpawn, i as int));
            }
            while j < SIZE_IN_CELLS
                invariant
                    j <= SIZE_IN_CELLS,
                    i < SIZE_IN_CELLS,
                    old(game).wf(),
                    grid == old(game).field.grid(),
                    row == grid[i as int],
                    game.field == old(game).field,
                    game.bomb == old(game).bomb,
                    game.explosions == old(game).explosions,
                    game.walls@ == old(game).walls@ + walls_of(
                        grid_hits(grid, CellCode::Wall, i as int) + row_hits(
                            row,
                            i as int,
                            CellCode::Wall,
                            j as int,
                        ),
                    ),
                    game.breakable_walls@ == old(game).breakable_walls@ + breakables_of(
                        grid_hits(grid, CellCode::BreakableWall, i as int) + row_hits(
                            row,
                            i as int,
                            CellCode::BreakableWall,
                            j as int,
                        ),
                    ),
                    game.enemies@ == old(game).enemies@ + enemies_of(
                        grid_hits(grid, CellCode::EnemySpawn, i as int) + row_hits(
                            row,
                            i as int,
                            CellCode::EnemySpawn,
                            j as int,
                        ),
                    ),
                    game.player == merged_player(
                        old(game).player,
                        opt_or(
                            grid_last_spawn(grid, i as int),
                            row_last_spawn(row, i as int, j as int),
                        ),
                        now,
                    ),
                decreases SIZE_IN_CELLS - j,
            {
                proof {
                    assert(game.field.grid()[i as int] == game.field.cells@[i as int]@);
                    assert(old(game).field.grid()[i as int].len() == SIZE_IN_CELLS as int);
                }
                let code = game.field.cells[i][j];
                proof {
                    assert(code == row[j as int]);
                }
                let pos = Pos { x: i as i32, y: j as i32 };
                let ghost walls0 = grid_hits(grid, CellCode::Wall, i as int) + row_hits(
                    row,
                    i as int,
                    CellCode::Wall,
                    j as int,
                );
                let ghost breaks0 = grid_hits(grid, CellCode::BreakableWall, i as int) + row_hits(
                    row,
                    i as int,
                    CellCode::BreakableWall,
                    j as int,
                );
                let ghost foes0 = grid_hits(grid, CellCode::EnemySpawn, i as int) + row_hits(
                    row,
                    i as int,
                    CellCode::EnemySpawn,
                    j as int,
                );
                match code {
                    CellCode::Wall => {
                        game.walls.push(Wall { pos });
                        proof {
                            assert(game.walls@ =~= old(game).walls@ + (walls_of(walls0) + seq![
                                (Wall { pos: pos }),
                            ]));
                            assert(walls_of(seq![pos]) =~= seq![(Wall { pos: pos })]);
                            lemma_walls_of_add(walls0, seq![pos]);
                            assert(walls0 + seq![pos] =~= grid_hits(grid, CellCode::Wall, i as int)
                                + row_hits(row, i as int, CellCode::Wall, j as int + 1));
                            assert(old(game).walls@ + (walls_of(walls0) + walls_of(seq![pos]))
                                =~= old(game).walls@ + walls_of(walls0 + seq![pos]));
                        }
                    },
                    CellCode::BreakableWall => {
                        game.breakable_walls.push(BreakableWall { pos });
                        proof {
                            assert(game.breakable_walls@ =~= old(game).breakable_walls@ + (
                            breakables_of(breaks0) + seq![(BreakableWall { pos: pos })]));
                            assert(breakables_of(seq![pos]) =~= seq![(BreakableWall { pos: pos })]);
                            lemma_breakables_of_add(breaks0, seq![pos]);
                            assert(breaks0 + seq![pos] =~= grid_hits(
                                grid,
                                CellCode::BreakableWall,
                                i as int,
                            ) + row_hits(row, i as int, CellCode::BreakableWall, j as int + 1));
                            assert(old(game).breakable_walls@ + (breakables_of(breaks0)
                                + breakables_of(seq![pos])) =~= old(game).breakable_walls@
                                + breakables_of(breaks0 + seq![pos]));
                        }
                    },
                    CellCode::EnemySpawn => {
                        game.enemies.push(Enemy { pos, motion: Motion::Idle });
                        proof {
                            assert(game.enemies@ =~= old(game).enemies@ + (enemies_of(foes0)
                                + seq![(Enemy { pos: pos, motion: Motion::Idle })]));
                            assert(enemies_of(seq![pos]) =~= seq![
                                (Enemy { pos: pos, motion: Motion::Idle }),
                            ]);
                            lemma_enemies_of_add(foes0, seq![pos]);
                            assert(foes0 + seq![pos] =~= grid_hits(
                                grid,
                                CellCode::EnemySpawn,
                                i as int,
                            ) + row_hits(row, i as int, CellCode::EnemySpawn, j as int + 1));
                            assert(old(game).enemies@ + (enemies_of(foes0) + enemies_of(
                                seq![pos],
                            )) =~= old(game).enemies@ + enemies_of(foes0 + seq![pos]));
                        }
                    },
                    CellCode::PlayerSpawn => {
                        game.player = Some(Player {
                            pos,
                            health: crate::constants::PLAYER_START_HEALTH,
                            last_hit: now,
                            flash: false,
                            facing: crate::components::Dir::South,
                            motion: Motion::Idle,
                        });
                    },
                    CellCode::Empty => {},
                }
                proof {
                    assert(row_hits(row, i as int, CellCode::Wall, j as int + 1) == row_hits(
                        row,
                        i as int,
                        CellCode::Wall,
                        j as int,
                    ) + if row[j as int] == CellCode::Wall {
                        seq![(Pos { x: i as i32, y: j as i32 })]
                    } else {
                        Seq::<Pos>::empty()
                    });
                    if row[j as int] != CellCode::Wall {
                        assert(walls0 + Seq::<Pos>::empty() =~= walls0);
                        assert(row_hits(row, i as int, CellCode::Wall, j as int + 1) =~= row_hits(
                            row,
                            i as int,
                            CellCode::Wall,
                            j as int,
                        ));
                    }
                    if row[j as int] != CellCode::BreakableWall {
                        assert(row_hits(row, i as int, CellCode::BreakableWall, j as int + 1)
                            =~= row_hits(row, i as int, CellCode::BreakableWall, j as int));
                    }
                    if row[j as int] != CellCode::EnemySpawn {
                        assert(row_hits(row, i as int, CellCode::EnemySpawn, j as int + 1)
                            =~= row_hits(row, i as int, CellCode::EnemySpawn, j as int));
                    }
                }
                j = j + 1;
            }
            proof {
                assert(grid_hits(grid, CellCode::Wall, i as int + 1) == grid_hits(
                    grid,
                    CellCode::Wall,
                    i as int,
                ) + row_hits(grid[i as int], i as int, CellCode::Wall, SIZE_IN_CELLS as int));
                assert(grid_hits(grid, CellCode::BreakableWall, i as int + 1) == grid_hits(
                    grid,
                    CellCode::BreakableWall,
                    i as int,
                ) + row_hits(
                    grid[i as int],
                    i as int,
                    CellCode::BreakableWall,
                    SIZE_IN_CELLS as int,
                ));
                assert(grid_hits(grid, CellCode::EnemySpawn, i as int + 1) == grid_hits(
                    grid,
                    CellCode::EnemySpawn,
                    i as int,
                ) + row_hits(grid[i as int], i as int, CellCode::EnemySpawn, SIZE_IN_CELLS as int));
                lemma_walls_of_add(
                    grid_hits(grid, CellCode::Wall, i as int),
                    row_hits(grid[i as int], i as int, CellCode::Wall, SIZE_IN_CELLS as int),
                );
                lemma_breakables_of_add(
                    grid_hits(grid, CellCode::BreakableWall, i as int),
                    row_hits(
                        grid[i as int],
                        i as int,
                        CellCode::BreakableWall,
                        SIZE_IN_CELLS as int,
                    ),
                );
                lemma_enemies_of_add(
                    grid_hits(grid, CellCode::EnemySpawn, i as int),
                    row_hits(grid[i as int], i as int, CellCode::EnemySpawn, SIZE_IN_CELLS as int),
                );
                assert(game.walls@ =~= old(game).walls@ + walls_of(
                    grid_hits(grid, CellCode::Wall, i as int + 1),
                ));
                assert(game.breakable_walls@ =~= old(game).breakable_walls@ + breakables_of(
                    grid_hits(grid, CellCode::BreakableWall, i as int + 1),
                ));
                assert(game.enemies@ =~= old(game).enemies@ + enemies_of(
                    grid_hits(grid, CellCode::EnemySpawn, i as int + 1),
                ));
            }
            i = i + 1;
        }
        game.field.spawned = true;
    }
}

/// Watches the enemy population: when none remain, advances the level
/// counter by exactly one, clears both one-shot gates so that load and
/// spawn re-run, and despawns the player and every solid entity. The
/// live explosions are left to expire on their own timer.
pub fn complete_level_system(game: &mut Game)
    requires
        old(game).field.current_level < u32::MAX,
    ensures
        old(game).enemies@.len() > 0 ==> *final(game) == *old(game),
        old(game).enemies@.len() == 0 ==> {
            &&& final(game).field.current_level == old(game).field.current_level + 1
            &&& !final(game).field.loaded
            &&& !final(game).field.spawned
            &&& final(game).field.cells == old(game).field.cells
            &&& final(game).player is None
            &&& final(game).enemies@.len() == 0
            &&& final(game).walls@.len() == 0
            &&& final(game).breakable_walls@.len() == 0
            &&& final(game).bomb is None
            &&& final(game).explosions == old(game).explosions
        },
{
    if game.enemies.len() == 0 {
        game.field.current_level = game.field.current_level + 1;
        game.field.loaded = false;
        game.field.spawned = false;
        game.player = None;
        game.walls = Vec::new();
        game.breakable_walls = Vec::new();
        game.bomb = None;
    }
}

} // verus!
