use bomber_core::components::CellCode;
use bomber_core::field_systems::{create_level_from_string, load_field_system};
use bomber_core::components::Game;

fn source_with(cells: &[(usize, usize, char)]) -> Vec<char> {
    let mut rows: Vec<Vec<char>> = vec![vec!['.'; 30]; 30];
    for &(i, j, c) in cells {
        rows[i][j] = c;
    }
    let lines: Vec<String> = rows.into_iter().map(|r| r.into_iter().collect()).collect();
    lines.join("\n").chars().collect()
}

#[test]
fn parse_round_trips_each_character() {
    let src = source_with(&[(0, 0, 'W'), (1, 2, 'B'), (5, 5, 'E'), (0, 1, 'S'), (9, 9, 'x')]);
    let grid = create_level_from_string(&src);
    assert_eq!(grid.len(), 30);
    for row in &grid {
        assert_eq!(row.len(), 30);
    }
    assert_eq!(grid[0][0], CellCode::Wall);
    assert_eq!(grid[1][2], CellCode::BreakableWall);
    assert_eq!(grid[5][5], CellCode::EnemySpawn);
    assert_eq!(grid[0][1], CellCode::PlayerSpawn);
    assert_eq!(grid[9][9], CellCode::Empty);
    assert_eq!(grid[20][20], CellCode::Empty);
}

#[test]
fn parse_is_deterministic() {
    let src = source_with(&[(3, 4, 'W'), (7, 8, 'E')]);
    let first = create_level_from_string(&src);
    let second = create_level_from_string(&src);
    assert_eq!(first, second);
}

#[test]
fn parse_rejects_wrong_row_count() {
    let rows: Vec<String> = (0..29).map(|_| "W".repeat(30)).collect();
    let src: Vec<char> = rows.join("\n").chars().collect();
    let grid = create_level_from_string(&src);
    for row in &grid {
        for cell in row {
            assert_eq!(*cell, CellCode::Empty);
        }
    }
}

#[test]
fn parse_rejects_wrong_row_length() {
    let mut rows: Vec<String> = (0..30).map(|_| "W".repeat(30)).collect();
    rows[17] = "W".repeat(29);
    let src: Vec<char> = rows.join("\n").chars().collect();
    let grid = create_level_from_string(&src);
    for row in &grid {
        for cell in row {
            assert_eq!(*cell, CellCode::Empty);
        }
    }
}

#[test]
fn parse_rejects_trailing_newline() {
    let rows: Vec<String> = (0..30).map(|_| "W".repeat(30)).collect();
    let mut text = rows.join("\n");
    text.push('\n');
    let src: Vec<char> = text.chars().collect();
    let grid = create_level_from_string(&src);
    for row in &grid {
        for cell in row {
            assert_eq!(*cell, CellCode::Empty);
        }
    }
}

#[test]
fn load_field_is_gated_by_loaded_flag() {
    let mut game = Game::new();
    let first = source_with(&[(2, 2, 'W')]);
    load_field_system(&mut game.field, &first);
    assert!(game.field.loaded);
    assert_eq!(game.field.cells[2][2], CellCode::Wall);
    let second = source_with(&[(3, 3, 'B')]);
    load_field_system(&mut game.field, &second);
    assert_eq!(game.field.cells[2][2], CellCode::Wall);
    assert_eq!(game.field.cells[3][3], CellCode::Empty);
}
