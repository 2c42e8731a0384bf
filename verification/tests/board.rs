use tetr_online::Board;
use tetr_online::CellKind;
use tetr_online::PieceType;

fn fill_row(board: &mut Board, y: isize) {
    for x in 0..board.width() as isize {
        board.set(x, y, CellKind::Occupied(PieceType::I));
    }
}

fn kinds_text(board: &Board) -> String {
    board.to_text()
}

// Clearing lines on an empty board clears nothing and changes nothing.
#[test]
fn clear_lines_on_empty_board_is_a_no_op() {
    let mut board = Board::with_top_margin(10, 20, 4);
    let before = kinds_text(&board);
    assert_eq!(board.clear_lines(), 0);
    assert_eq!(kinds_text(&board), before);
    assert_eq!(board.cells().len(), 0);
}

// One full row clears; everything above shifts down one row.
#[test]
fn clear_lines_clears_a_single_full_row() {
    let mut board = Board::new(4, 6);
    fill_row(&mut board, 1);
    // a partial row above, to watch it shift down
    board.set(2, 3, CellKind::Occupied(PieceType::T));
    // a partial row at the bottom, which must stay put
    board.set(0, 0, CellKind::Occupied(PieceType::S));

    assert_eq!(board.clear_lines(), 1);

    // the bottom row is untouched
    assert!(board.get_cell_kind(0, 0).is_some());
    // the marker moved from row 3 to row 2
    assert!(board.get_cell_kind(2, 3).is_none());
    assert!(board.get_cell_kind(2, 2).is_some());
    // only those two cells remain
    assert_eq!(board.cells().len(), 2);
}

// Two non-adjacent full rows clear in one call, and the end state matches
// clearing the lower row and then the upper row one at a time.
#[test]
fn clear_lines_clears_two_rows_like_sequential_clears() {
    let build = || {
        let mut board = Board::new(4, 6);
        fill_row(&mut board, 1);
        fill_row(&mut board, 3);
        board.set(0, 0, CellKind::Occupied(PieceType::S));
        board.set(1, 2, CellKind::Occupied(PieceType::T));
        board.set(2, 4, CellKind::Occupied(PieceType::Z));
        board
    };

    let mut at_once = build();
    assert_eq!(at_once.clear_lines(), 2);

    let mut sequential = build();
    sequential.clear_line(1); // the lower full row first
    sequential.clear_line(2); // the upper one, shifted down by the first clear
    assert_eq!(kinds_text(&at_once), kinds_text(&sequential));

    // survivors: (0,0) stays, (1,2) slides to (1,1), (2,4) slides to (2,2)
    assert!(at_once.get_cell_kind(0, 0).is_some());
    assert!(at_once.get_cell_kind(1, 1).is_some());
    assert!(at_once.get_cell_kind(2, 2).is_some());
    assert_eq!(at_once.cells().len(), 3);
}

// A clear cascades when the shift brings another full row into view.
#[test]
fn clear_lines_rescans_after_each_clear() {
    let mut board = Board::new(3, 2);
    fill_row(&mut board, 0);
    fill_row(&mut board, 1);
    assert_eq!(board.clear_lines(), 2);
    assert_eq!(board.cells().len(), 0);
}

// clear_line reports the removed cells and shifts the margin rows too.
#[test]
fn clear_line_returns_removed_cells_and_shifts_margin() {
    let mut board = Board::with_top_margin(3, 2, 2);
    fill_row(&mut board, 0);
    board.set(1, 3, CellKind::Occupied(PieceType::J)); // in the hidden margin
    let removed = board.clear_line(0);
    assert_eq!(removed.len(), 3);
    for cell in &removed {
        assert!(cell.cell_kind().is_some());
    }
    // the margin block moved down one stored row
    assert!(board.get_cell_kind(1, 2).is_some());
    assert!(board.get_cell_kind(1, 3).is_none());
}

// Out-of-range writes are dropped; queries report walls and margins.
#[test]
fn set_and_get_respect_bounds() {
    let mut board = Board::new(4, 6);
    assert!(!board.set(-1, 0, CellKind::Occupied(PieceType::I)));
    assert!(!board.set(0, -1, CellKind::Occupied(PieceType::I)));
    assert!(!board.set(4, 0, CellKind::Occupied(PieceType::I)));
    assert!(!board.set(0, 6, CellKind::Occupied(PieceType::I)));
    assert_eq!(board.cells().len(), 0);

    assert!(board.set(2, 3, CellKind::Occupied(PieceType::L)));
    assert!(board.get(2, 3).is_some());
    assert_eq!(board.get(2, 3).unwrap().coords(), (2, 3));
    assert!(board.get(0, 0).is_none()); // empty cells are not reported
    assert!(board.get(2, 7).is_none()); // above the visible field

    assert!(board.get_cell_kind(-1, 0).is_wall());
    assert!(board.get_cell_kind(4, 0).is_wall());
    assert!(board.get_cell_kind(0, -1).is_wall());
    assert!(board.get_cell_kind(0, 9).is_none()); // above the grid: empty
    assert!(board.get_cell_kind(2, 3).is_some());
}

// Occupied cells come out in row-major order with their own coordinates.
#[test]
fn cells_are_row_major_with_coordinates() {
    let mut board = Board::new(3, 3);
    board.set(2, 0, CellKind::Occupied(PieceType::I));
    board.set(0, 1, CellKind::Occupied(PieceType::T));
    board.set(1, 1, CellKind::Occupied(PieceType::Z));
    let coords = board.cell_coords();
    assert_eq!(coords, vec![(2, 0), (0, 1), (1, 1)]);
    let row1 = board.row_cells(1);
    assert_eq!(row1.len(), 2);
    assert_eq!(row1[0].coords(), (0, 1));
    assert_eq!(row1[1].coords(), (1, 1));
    assert!(board.row_is_full(1) == false);
}

// row_is_full demands every column.
#[test]
fn row_is_full_checks_every_column() {
    let mut board = Board::new(3, 3);
    board.set(0, 0, CellKind::Occupied(PieceType::I));
    board.set(1, 0, CellKind::Occupied(PieceType::I));
    assert!(!board.row_is_full(0));
    board.set(2, 0, CellKind::Occupied(PieceType::I));
    assert!(board.row_is_full(0));
}

// The coordinate enumeration walks columns bottom to top.
#[test]
fn coords_enumerates_column_by_column() {
    let board = Board::new(2, 3);
    assert_eq!(
        board.coords(),
        vec![(0, 0), (0, 1), (0, 2), (1, 0), (1, 1), (1, 2)]
    );
}

// The text picture draws the top row first.
#[test]
fn to_text_draws_top_row_first() {
    let mut board = Board::new(3, 2);
    board.set(0, 0, CellKind::Occupied(PieceType::I));
    assert_eq!(board.to_text(), "###\nX##\n");
}

// The cell-state helpers.
#[test]
fn cell_kind_helpers() {
    let occupied = CellKind::Occupied(PieceType::S);
    let empty = CellKind::Empty;
    let wall = CellKind::Wall;
    assert!(occupied.is_some() && !occupied.is_none() && !occupied.is_wall());
    assert!(!empty.is_some() && empty.is_none() && !empty.is_wall());
    assert!(!wall.is_some() && !wall.is_none() && wall.is_wall());
    assert_eq!(occupied.unwrap(), PieceType::S);
    assert_eq!(occupied.unwrap_or(PieceType::I), PieceType::S);
    assert_eq!(empty.unwrap_or(PieceType::I), PieceType::I);
    assert_eq!(occupied.as_some(), Some(PieceType::S));
    assert_eq!(wall.as_some(), None);
}

// Cells compare by position alone and order row-major.
#[test]
fn cells_compare_by_position() {
    let a = tetr_online::Cell::new(1, 2, CellKind::Occupied(PieceType::I));
    let b = tetr_online::Cell::new(1, 2, CellKind::Empty);
    let c = tetr_online::Cell::new(0, 3, CellKind::Empty);
    assert!(a == b); // the state does not matter
    assert!(a < c); // row first
    assert!(tetr_online::Cell::new(2, 2, CellKind::Empty) > a); // then column
}
