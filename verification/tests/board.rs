use minesweeper::cell::{Cell, CellState, CellType};
use minesweeper::error::BoardError;
use minesweeper::grid::neighbors_in;
use minesweeper::minesweeper::Minesweeper;
use minesweeper::render::glyph_of;

/// Turns a picture with `#` for a hidden cell, `M` for a mine and `F` for a
/// flag into the text that the board renders.
fn picture(rows: &[&str]) -> String {
    let mut text = String::new();
    for row in rows {
        for c in row.chars() {
            text.push(match c {
                '#' => '\u{1F7EA}',
                'M' => '\u{1F4A3}',
                'F' => '\u{1F6A9}',
                other => other,
            });
        }
        text.push(' ');
        text.push('\n');
    }
    text
}

fn count_cells(game: &Minesweeper, wanted: fn(Cell) -> bool) -> usize {
    let mut total = 0;
    for x in 0..game.width() {
        for y in 0..game.height() {
            if wanted(game.cell((x, y)).unwrap()) {
                total += 1;
            }
        }
    }
    total
}

fn is_mine(cell: Cell) -> bool {
    cell.cell_type == CellType::Mine
}

fn is_hidden(cell: Cell) -> bool {
    cell.cell_state == CellState::Hidden
}

fn is_revealed(cell: Cell) -> bool {
    cell.cell_state == CellState::Revealed
}

fn any_cell(_: Cell) -> bool {
    true
}

#[test]
fn reveal_cell() {
    let mut minesweeper = Minesweeper::new(20, 20, 40).unwrap();

    // Reveal a cell
    let position = (5, 5);
    minesweeper.reveal_at(position).unwrap();

    println!("{}", minesweeper.render());
}

#[test]
fn board_initialization() {
    let height = 20;
    let width = 20;
    let mine_count = 40;

    let minesweeper = Minesweeper::new(height, width, mine_count).unwrap();

    assert_eq!(minesweeper.width(), height);
    assert_eq!(minesweeper.height(), width);
    assert_eq!(count_cells(&minesweeper, any_cell), height * width);

    // Check that the number of mines is correct
    let mine_count = count_cells(&minesweeper, is_mine);

    assert_eq!(mine_count, 40);
}

#[test]
fn test_neigbors() {
    let minesweeper = Minesweeper::new(20, 20, 40).unwrap();
    let position = (5, 5);
    let neighbors = minesweeper.neighbors(position);
    assert_eq!(neighbors.len(), 8);

    let neighbors = minesweeper.neighbors((0, 0));
    assert_eq!(neighbors.len(), 3);
}

#[test]
fn neighbors_come_column_by_column() {
    let minesweeper = Minesweeper::new(20, 20, 40).unwrap();
    assert_eq!(
        minesweeper.neighbors((5, 5)),
        vec![(4, 4), (4, 5), (4, 6), (5, 4), (5, 6), (6, 4), (6, 5), (6, 6)]
    );
    assert_eq!(minesweeper.neighbors((0, 0)), vec![(0, 1), (1, 0), (1, 1)]);
    assert_eq!(minesweeper.neighbors((19, 19)), vec![(18, 18), (18, 19), (19, 18)]);
}

#[test]
fn an_edge_has_five_neighbors() {
    let minesweeper = Minesweeper::new(20, 20, 40).unwrap();
    assert_eq!(minesweeper.neighbors((0, 7)), vec![(0, 6), (0, 8), (1, 6), (1, 7), (1, 8)]);
    assert_eq!(minesweeper.neighbors((7, 19)).len(), 5);
}

#[test]
fn neighbors_of_a_position_off_the_board() {
    assert_eq!(neighbors_in((20, 0), 20, 20), vec![(19, 0), (19, 1)]);
    assert_eq!(neighbors_in((25, 25), 20, 20), vec![]);
    assert_eq!(neighbors_in((usize::MAX, usize::MAX), 20, 20), vec![]);
    assert_eq!(neighbors_in((0, 0), 1, 1), vec![]);
}

#[test]
fn zero_width_is_rejected() {
    assert_eq!(Minesweeper::new(0, 5, 3).err(), Some(BoardError::ZeroWidth));
    assert_eq!(Minesweeper::new(0, 0, 0).err(), Some(BoardError::ZeroWidth));
}

#[test]
fn zero_height_is_rejected() {
    assert_eq!(Minesweeper::new(5, 0, 3).err(), Some(BoardError::ZeroHeight));
}

#[test]
fn zero_mines_are_rejected() {
    assert_eq!(Minesweeper::new(5, 5, 0).err(), Some(BoardError::ZeroMines));
}

#[test]
fn a_full_board_is_rejected() {
    assert_eq!(Minesweeper::new(5, 5, 25).err(), Some(BoardError::TooManyMines));
    assert_eq!(Minesweeper::new(5, 5, 26).err(), Some(BoardError::TooManyMines));
    assert_eq!(Minesweeper::new(1, 1, 1).err(), Some(BoardError::TooManyMines));
    assert!(Minesweeper::new(5, 5, 24).is_ok());
}

#[test]
fn too_few_draws_are_reported() {
    // The layout of the default board takes 43 draws.
    assert_eq!(
        Minesweeper::with_draw_limit(20, 20, 40, 42).err(),
        Some(BoardError::DrawLimitReached)
    );
    assert_eq!(
        Minesweeper::with_draw_limit(20, 20, 40, 0).err(),
        Some(BoardError::DrawLimitReached)
    );
    let limited = Minesweeper::with_draw_limit(20, 20, 40, 43).unwrap();
    let unlimited = Minesweeper::new(20, 20, 40).unwrap();
    for x in 0..20 {
        for y in 0..20 {
            assert_eq!(limited.cell((x, y)), unlimited.cell((x, y)));
        }
    }
}

#[test]
fn the_mines_lie_where_the_draws_put_them() {
    let game = Minesweeper::new(20, 20, 40).unwrap();
    let mines = [
        (6, 10), (18, 8), (18, 14), (19, 8), (4, 13), (12, 1), (0, 13), (8, 17), (0, 2), (12, 6),
        (8, 4), (16, 12), (19, 13), (13, 12), (18, 19), (5, 0), (6, 18), (19, 11), (8, 0), (3, 15),
        (2, 0), (2, 13), (7, 10), (7, 12), (16, 9), (18, 17), (1, 18), (0, 0), (9, 6), (18, 16),
        (16, 19), (9, 0), (4, 6), (11, 2), (14, 6), (3, 2), (12, 2), (8, 11), (7, 16), (18, 7),
    ];
    for x in 0..20 {
        for y in 0..20 {
            let cell = game.cell((x, y)).unwrap();
            assert_eq!(cell.cell_type == CellType::Mine, mines.contains(&(x, y)));
        }
    }
    // The first mine comes from the first two words of the generator.
    assert_eq!((3701687786usize % 20, 458299110usize % 20), (6, 10));
}

#[test]
fn a_small_board_has_the_expected_cells() {
    let game = Minesweeper::new(5, 5, 3).unwrap();
    let rows = [
        [1, 9, 1, 0, 0],
        [1, 1, 1, 0, 0],
        [0, 0, 1, 1, 1],
        [0, 0, 2, 9, 2],
        [0, 0, 2, 9, 2],
    ];
    for y in 0..5 {
        for x in 0..5 {
            let expected = if rows[y][x] == 9 {
                CellType::Mine
            } else {
                CellType::NoMine(rows[y][x])
            };
            assert_eq!(
                game.cell((x, y)),
                Some(Cell { cell_state: CellState::Hidden, cell_type: expected })
            );
        }
    }
    assert_eq!(game.width(), 5);
    assert_eq!(game.height(), 5);
    assert_eq!(game.mine_count(), 3);
    assert!(!game.is_game_over());
}

#[test]
fn a_board_that_is_not_square() {
    let game = Minesweeper::new(4, 3, 2).unwrap();
    assert_eq!(game.width(), 4);
    assert_eq!(game.height(), 3);
    let rows = [[0, 1, 9, 1], [0, 2, 2, 2], [0, 1, 9, 1]];
    for y in 0..3 {
        for x in 0..4 {
            let expected = if rows[y][x] == 9 {
                CellType::Mine
            } else {
                CellType::NoMine(rows[y][x])
            };
            assert_eq!(game.cell((x, y)).unwrap().cell_type, expected);
        }
    }
    assert_eq!(game.cell((4, 0)), None);
    assert_eq!(game.cell((0, 3)), None);
    assert_eq!(game.cell((3, 2)).unwrap().cell_type, CellType::NoMine(1));
}

#[test]
fn every_board_has_its_mines_and_cells() {
    for (width, height, mine_count) in [(2, 2, 3), (3, 3, 1), (1, 2, 1), (2, 1, 1), (9, 7, 30)] {
        let game = Minesweeper::new(width, height, mine_count).unwrap();
        assert_eq!(count_cells(&game, any_cell), width * height);
        assert_eq!(count_cells(&game, is_mine), mine_count);
        assert_eq!(count_cells(&game, is_hidden), width * height);
        assert!(!game.is_game_over());
    }
}

#[test]
fn counts_are_the_mines_among_the_neighbors() {
    let game = Minesweeper::new(20, 20, 40).unwrap();
    for x in 0..20 {
        for y in 0..20 {
            if let CellType::NoMine(count) = game.cell((x, y)).unwrap().cell_type {
                let around = game
                    .neighbors((x, y))
                    .into_iter()
                    .filter(|&p| game.cell(p).unwrap().cell_type == CellType::Mine)
                    .count();
                assert_eq!(count as usize, around);
            }
        }
    }
    assert_eq!(game.cell((1, 1)).unwrap().cell_type, CellType::NoMine(3));
    assert_eq!(game.cell((7, 11)).unwrap().cell_type, CellType::NoMine(4));
    assert_eq!(game.cell((5, 5)).unwrap().cell_type, CellType::NoMine(1));
}

#[test]
fn a_fresh_board_renders_hidden() {
    let game = Minesweeper::new(2, 3, 1).unwrap();
    assert_eq!(game.render(), picture(&["# #", "# #", "# #"]));
    assert_eq!(game.render(), "\u{1F7EA} \u{1F7EA} \n\u{1F7EA} \u{1F7EA} \n\u{1F7EA} \u{1F7EA} \n");
}

#[test]
fn revealing_a_numbered_cell_reveals_only_it() {
    let mut game = Minesweeper::new(20, 20, 40).unwrap();
    assert_eq!(game.reveal_at((5, 5)), Ok(()));
    assert_eq!(count_cells(&game, is_revealed), 1);
    assert_eq!(
        game.cell((5, 5)),
        Some(Cell { cell_state: CellState::Revealed, cell_type: CellType::NoMine(1) })
    );
    assert!(!game.is_game_over());
}

#[test]
fn revealing_a_blank_cell_spreads() {
    let mut game = Minesweeper::new(5, 5, 3).unwrap();
    assert_eq!(game.reveal_at((0, 4)), Ok(()));
    assert_eq!(
        game.render(),
        picture(&["# # # # #", "1 1 1 # #", "0 0 1 # #", "0 0 2 # #", "0 0 2 # #"])
    );
    assert!(!game.is_game_over());

    let mut game = Minesweeper::new(5, 5, 3).unwrap();
    assert_eq!(game.reveal_at((4, 0)), Ok(()));
    assert_eq!(
        game.render(),
        picture(&["# # 1 0 0", "# # 1 0 0", "# # 1 1 1", "# # # # #", "# # # # #"])
    );
}

#[test]
fn a_reveal_spreads_over_the_whole_blank_region() {
    let mut game = Minesweeper::new(20, 20, 40).unwrap();
    assert_eq!(game.reveal_at((10, 10)), Ok(()));
    assert_eq!(
        game.render(),
        picture(&[
            "# # # # # # # # # # # # # # # # # # # #",
            "# # # # 2 1 1 1 2 2 2 # # # # # # # # #",
            "# # # # 1 0 0 0 0 0 1 # # # # # # # # #",
            "1 1 1 1 1 0 0 1 1 1 1 # # # # # # # # #",
            "0 0 0 0 0 0 0 1 # # # # # # # # # # # #",
            "0 0 0 1 1 1 0 1 2 # # # # # # # # # # #",
            "0 0 0 1 # 1 0 0 1 # # # # # # # # # # #",
            "0 0 0 1 1 1 0 0 1 1 1 1 1 2 1 1 # # # #",
            "0 0 0 0 0 0 0 0 0 0 0 0 0 0 0 1 # # # #",
            "0 0 0 0 0 1 2 2 1 0 0 0 0 0 0 1 # # # #",
            "0 0 0 0 0 1 # # 2 1 0 0 0 0 0 1 # # # #",
            "0 0 0 0 0 1 # # # 1 0 0 1 1 1 1 # # # #",
            "1 2 1 2 1 1 # # 2 1 0 0 1 # # # # # # #",
            "# # # # # 1 1 1 1 0 0 0 1 1 1 1 1 2 # #",
            "# # # # 2 1 0 0 0 0 0 0 0 0 0 0 0 1 # #",
            "# # # # 1 0 1 1 1 0 0 0 0 0 0 0 0 2 # #",
            "# # 1 1 1 0 1 # 2 1 0 0 0 0 0 0 0 2 # #",
            "# # 1 0 0 1 2 # # 1 0 0 0 0 0 0 0 2 # #",
            "# # 1 0 0 1 # 2 1 1 0 0 0 0 0 1 1 3 # #",
            "# # 1 0 0 1 # 1 0 0 0 0 0 0 0 1 # # # #",
        ])
    );
    assert_eq!(count_cells(&game, is_revealed), 234);
    assert!(!game.is_game_over());
}

#[test]
fn a_reveal_does_not_spread_over_flags() {
    let mut game = Minesweeper::new(5, 5, 3).unwrap();
    game.flag((0, 3)).unwrap();
    game.flag((1, 2)).unwrap();
    game.reveal_at((0, 4)).unwrap();
    assert_eq!(
        game.render(),
        picture(&["# # # # #", "1 1 # # #", "0 F 1 # #", "F 0 2 # #", "0 0 2 # #"])
    );
}

#[test]
fn revealing_a_mine_ends_the_game() {
    let mut game = Minesweeper::new(5, 5, 3).unwrap();
    game.flag((3, 3)).unwrap();
    game.reveal_at((2, 2)).unwrap();
    assert_eq!(game.reveal_at((1, 0)), Ok(()));
    assert!(game.is_game_over());
    let over = picture(&["# M # # #", "# # # # #", "# # 1 # #", "# # # M #", "# # # M #"]);
    assert_eq!(game.render(), over);
    for position in [(1, 0), (3, 3), (3, 4)] {
        assert_eq!(game.cell(position).unwrap().cell_state, CellState::Revealed);
    }

    // Nothing moves once the game is over.
    for x in 0..5 {
        for y in 0..5 {
            assert_eq!(game.reveal_at((x, y)), Ok(()));
            assert_eq!(game.flag((x, y)), Ok(()));
        }
    }
    assert_eq!(game.render(), over);
    assert!(game.is_game_over());
}

#[test]
fn a_revealed_or_flagged_cell_is_not_revealed_again() {
    let mut game = Minesweeper::new(5, 5, 3).unwrap();
    game.flag((1, 0)).unwrap();
    assert_eq!(game.reveal_at((1, 0)), Ok(()));
    assert!(!game.is_game_over());
    assert_eq!(game.cell((1, 0)).unwrap().cell_state, CellState::Flagged);

    game.reveal_at((4, 0)).unwrap();
    let before = game.render();
    assert_eq!(game.reveal_at((4, 0)), Ok(()));
    assert_eq!(game.reveal_at((3, 1)), Ok(()));
    assert_eq!(game.render(), before);
}

#[test]
fn a_flag_goes_on_and_off() {
    let mut game = Minesweeper::new(5, 5, 3).unwrap();
    assert_eq!(game.flag((2, 3)), Ok(()));
    assert_eq!(game.cell((2, 3)).unwrap().cell_state, CellState::Flagged);
    assert_eq!(count_cells(&game, is_hidden), 24);
    assert_eq!(
        game.render(),
        picture(&["# # # # #", "# # # # #", "# # # # #", "# # F # #", "# # # # #"])
    );
    assert_eq!(game.flag((2, 3)), Ok(()));
    assert_eq!(game.cell((2, 3)).unwrap().cell_state, CellState::Hidden);
    assert_eq!(count_cells(&game, is_hidden), 25);
}

#[test]
fn a_flag_does_not_go_on_a_revealed_cell() {
    let mut game = Minesweeper::new(5, 5, 3).unwrap();
    game.reveal_at((2, 2)).unwrap();
    assert_eq!(game.flag((2, 2)), Ok(()));
    assert_eq!(
        game.cell((2, 2)),
        Some(Cell { cell_state: CellState::Revealed, cell_type: CellType::NoMine(1) })
    );
}

#[test]
fn positions_off_the_board_are_reported() {
    let mut game = Minesweeper::new(5, 4, 3).unwrap();
    let before = game.render();
    assert_eq!(game.reveal_at((5, 0)), Err(BoardError::OutOfBounds));
    assert_eq!(game.reveal_at((0, 4)), Err(BoardError::OutOfBounds));
    assert_eq!(game.flag((5, 0)), Err(BoardError::OutOfBounds));
    assert_eq!(game.flag((usize::MAX, usize::MAX)), Err(BoardError::OutOfBounds));
    assert_eq!(game.cell((5, 0)), None);
    assert_eq!(game.render(), before);
    assert_eq!(game.reveal_at((4, 3)), Ok(()));
}

#[test]
fn reset_gives_a_fresh_board() {
    let mut game = Minesweeper::new(20, 20, 40).unwrap();
    let fresh = game.render();
    game.flag((1, 1)).unwrap();
    game.reveal_at((10, 10)).unwrap();
    game.reveal_at((0, 0)).unwrap();
    assert!(game.is_game_over());
    assert_ne!(game.render(), fresh);

    game.reset();
    assert!(!game.is_game_over());
    assert_eq!(game.width(), 20);
    assert_eq!(game.height(), 20);
    assert_eq!(game.mine_count(), 40);
    assert_eq!(count_cells(&game, is_mine), 40);
    assert_eq!(count_cells(&game, is_hidden), 400);
    assert_eq!(game.render(), fresh);

    // The board after a reset plays as a new board does.
    let mut other = Minesweeper::new(20, 20, 40).unwrap();
    game.reveal_at((10, 10)).unwrap();
    other.reveal_at((10, 10)).unwrap();
    assert_eq!(game.render(), other.render());
}

#[test]
fn glyphs() {
    let cell = |cell_state, cell_type| Cell { cell_state, cell_type };
    assert_eq!(glyph_of(cell(CellState::Revealed, CellType::Mine)), '\u{1F4A3}');
    assert_eq!(glyph_of(cell(CellState::Revealed, CellType::NoMine(0))), '0');
    assert_eq!(glyph_of(cell(CellState::Revealed, CellType::NoMine(8))), '8');
    assert_eq!(glyph_of(cell(CellState::Flagged, CellType::Mine)), '\u{1F6A9}');
    assert_eq!(glyph_of(cell(CellState::Flagged, CellType::NoMine(2))), '\u{1F6A9}');
    assert_eq!(glyph_of(cell(CellState::Hidden, CellType::Mine)), '\u{1F7EA}');
    assert_eq!(glyph_of(cell(CellState::Hidden, CellType::NoMine(3))), '\u{1F7EA}');
}
