use tetr_online::control::count_t_spin_corners;
use tetr_online::Board;
use tetr_online::CellKind;
use tetr_online::MoveDirection;
use tetr_online::Piece;
use tetr_online::PieceRotation;
use tetr_online::PieceType;

#[test]
fn test_piece_rotation() {
    let mut piece = Piece::new(PieceType::I);
    assert_eq!(piece.board_size(), (4, 4));
    assert_eq!(piece.board().rows().len(), 4);
    assert_eq!(piece.board().rows()[0].len(), 4);

    piece.rotate();
    assert_eq!(piece.board_size(), (4, 4));
    assert_eq!(piece.board().rows().len(), 4);
    assert_eq!(piece.board().rows()[0].len(), 4);
}

#[test]
fn test_piece_display() {
    // print all pieces and rotations
    for piece_type in PieceType::all() {
        for rotation in PieceRotation::all() {
            let mut piece = Piece::new(piece_type);
            piece.rotate_to(rotation);
            println!("{}", piece.board().to_text());
        }
    }

    let piece = Piece::new(PieceType::L);

    println!("{}", piece.board().to_text());
}

#[test]
fn test_avatars() {
    for piece_type in PieceType::all() {
        let piece = Piece::new(piece_type);
        let _avatar = piece.avatar_board();
        println!("{:?}: \n{}", piece_type, piece.avatar_board().to_text());
    }
}

// Every piece type in every rotation covers exactly four cells.
#[test]
fn tetromino_has_four_cells_in_every_rotation() {
    for piece_type in PieceType::all() {
        for rotation in PieceRotation::all() {
            let mut piece = Piece::new(piece_type);
            piece.rotate_to(rotation);
            assert_eq!(piece.board().cells().len(), 4);
            assert_eq!(piece.avatar_board().cells().len(), 4);
        }
    }
}

// The O piece's board is identical in all four rotations.
#[test]
fn o_piece_board_is_rotation_invariant() {
    let base = Piece::new(PieceType::O).board().to_text();
    for rotation in PieceRotation::all() {
        let mut piece = Piece::new(PieceType::O);
        piece.rotate_to(rotation);
        assert_eq!(piece.board().to_text(), base);
        let cells = piece.board().cells();
        let base_cells = Piece::new(PieceType::O).board().cells();
        assert_eq!(cells.len(), base_cells.len());
        for (a, b) in cells.iter().zip(base_cells.iter()) {
            assert_eq!(a.coords(), b.coords());
        }
    }
}

// The exact spawn shape of the T piece.
#[test]
fn t_piece_spawn_shape() {
    let board = Piece::new(PieceType::T).board();
    let coords = board.cell_coords();
    assert_eq!(coords, vec![(0, 1), (1, 1), (2, 1), (1, 2)]);
}

// In open space every legal I-piece transition succeeds without any kick.
#[test]
fn i_piece_rotates_without_kicks_in_open_space() {
    let board = Board::new(10, 20);
    let transitions = [
        (PieceRotation::R0, PieceRotation::R90),
        (PieceRotation::R90, PieceRotation::R0),
        (PieceRotation::R90, PieceRotation::R180),
        (PieceRotation::R180, PieceRotation::R90),
        (PieceRotation::R180, PieceRotation::R270),
        (PieceRotation::R270, PieceRotation::R180),
        (PieceRotation::R270, PieceRotation::R0),
        (PieceRotation::R0, PieceRotation::R270),
    ];
    for (from, to) in transitions {
        let mut piece = Piece::new(PieceType::I);
        piece.rotate_to(from);
        let result = piece.try_rotate_with_kicks(&board, (3, 8), to);
        match result {
            Ok((rotation, offset, kick_index)) => {
                assert_eq!(rotation, to);
                assert_eq!(offset, (3, 8));
                assert_eq!(kick_index, 0);
            }
            Err(()) => panic!("rotation refused in open space"),
        }
    }
}

// Moves step one cell and are refused at the walls.
#[test]
fn try_move_steps_and_refuses_walls() {
    let board = Board::new(4, 6);
    let piece = Piece::new(PieceType::O);
    // O occupies columns 1..=2 of its local board
    assert_eq!(piece.try_move(&board, (0, 1), MoveDirection::Right), Ok((1, 1)));
    assert_eq!(piece.try_move(&board, (0, 1), MoveDirection::Down), Ok((0, 0)));
    // at offset -1 the O cells sit in columns 0..=1; one more left leaves the board
    assert_eq!(piece.try_move(&board, (-1, 1), MoveDirection::Left), Err(()));
    // at offset y = -1 the O cells sit in rows 0..=1; one more down hits the floor
    assert_eq!(piece.try_move(&board, (0, -1), MoveDirection::Down), Err(()));
}

// A rotation with every kick position blocked is refused.
#[test]
fn rotation_refused_when_walled_in() {
    let mut board = Board::new(10, 20);
    // wall in a T piece at the origin: fill everything except its cells
    // (0,1),(1,1),(2,1),(1,2) so that no kick position fits
    for x in 0..10 {
        for y in 0..20 {
            let keep = matches!((x, y), (0, 1) | (1, 1) | (2, 1) | (1, 2));
            if !keep {
                board.set(x, y, CellKind::Occupied(PieceType::J));
            }
        }
    }
    let piece = Piece::new(PieceType::T);
    let result = piece.try_rotate_with_kicks(&board, (0, 0), PieceRotation::R90);
    assert_eq!(result, Err(()));
}

// Collision tests see walls, the floor, and other blocks.
#[test]
fn collide_with_sees_walls_floor_and_blocks() {
    let mut board = Board::new(10, 20);
    let piece = Piece::new(PieceType::O);
    assert!(!piece.collide_with(&board, (0, 0)));
    // below the floor
    assert!(piece.collide_with(&board, (0, -2)));
    // beyond the left wall
    assert!(piece.collide_with(&board, (-2, 0)));
    // a block in the way
    board.set(1, 1, CellKind::Occupied(PieceType::Z));
    assert!(piece.collide_with(&board, (0, 0)));
    // above the top there is open margin, not a wall
    assert!(!piece.collide_with(&board, (0, 25)));
}

// The corner count sees only occupied cells of the visible field.
#[test]
fn corner_count_counts_diagonals() {
    let mut board = Board::new(10, 20);
    assert_eq!(count_t_spin_corners(&board, (0, 0)), 0);
    board.set(0, 0, CellKind::Occupied(PieceType::L));
    board.set(2, 0, CellKind::Occupied(PieceType::L));
    board.set(0, 2, CellKind::Occupied(PieceType::L));
    assert_eq!(count_t_spin_corners(&board, (0, 0)), 3);
    board.set(2, 2, CellKind::Occupied(PieceType::L));
    assert_eq!(count_t_spin_corners(&board, (0, 0)), 4);
    // corners outside the field do not count
    assert_eq!(count_t_spin_corners(&board, (-2, -2)), 1);
}

// Rotation composition is cyclic.
#[test]
fn rotation_addition_is_cyclic() {
    let mut piece = Piece::new(PieceType::T);
    piece.rotate();
    assert_eq!(piece.rotation(), PieceRotation::R90);
    piece.rotate_n(2);
    assert_eq!(piece.rotation(), PieceRotation::R270);
    piece.rotate_n(5);
    assert_eq!(piece.rotation(), PieceRotation::R0);
    assert_eq!(
        PieceRotation::R270.plus(PieceRotation::R90),
        PieceRotation::R0
    );
}

// An in-place rotation (no kicks) succeeds in the open and is refused when
// the turned cells are taken.
#[test]
fn try_rotate_in_place() {
    let mut board = Board::new(10, 20);
    let piece = Piece::new(PieceType::T);
    assert_eq!(
        piece.try_rotate(&board, (3, 3), PieceRotation::R90),
        Ok(PieceRotation::R90)
    );
    // T at R90 occupies (1,0),(1,1),(2,1),(1,2): block one of those cells
    board.set(3 + 2, 3 + 1, CellKind::Occupied(PieceType::Z));
    assert_eq!(piece.try_rotate(&board, (3, 3), PieceRotation::R90), Err(()));
}
