use tetr_online::control::detect_placement;
use tetr_online::control::drop_coords;
use tetr_online::control::handle_hard_drop;
use tetr_online::control::handle_movement;
use tetr_online::control::handle_rotation;
use tetr_online::control::lock_piece;
use tetr_online::control::piece_fall;
use tetr_online::control::piece_place;
use tetr_online::control::setup_board;
use tetr_online::control::spawn_piece;
use tetr_online::control::swap_hold;
use tetr_online::ActionEvent;
use tetr_online::Board;
use tetr_online::CellKind;
use tetr_online::LevelConfig;
use tetr_online::MoveDirection;
use tetr_online::Piece;
use tetr_online::PieceController;
use tetr_online::PieceGenerator;
use tetr_online::PieceHolder;
use tetr_online::PieceRotation;
use tetr_online::PieceType;
use tetr_online::PlacingEvent;
use tetr_online::PlayingState;

// A piece with support is placing; one with air below is falling.
#[test]
fn detect_placement_follows_support() {
    let board = Board::new(10, 20);
    let piece = Piece::new(PieceType::O);
    assert_eq!(
        detect_placement(&piece, &board, (0, 5), PlayingState::Falling),
        PlayingState::Falling
    );
    assert_eq!(
        detect_placement(&piece, &board, (0, -1), PlayingState::Falling),
        PlayingState::Placing
    );
    assert_eq!(
        detect_placement(&piece, &board, (0, 5), PlayingState::Placing),
        PlayingState::Falling
    );
}

// Gravity moves the piece one row down when the fall timer fires.
#[test]
fn piece_fall_steps_on_timer_expiry() {
    let config = LevelConfig::default();
    let board = setup_board(&config);
    let piece = Piece::new(PieceType::T);
    let mut controller = PieceController::new(&config);
    let mut coords = (4, 10);

    piece_fall(&piece, &board, &mut coords, &mut controller, 100);
    assert_eq!(coords, (4, 10)); // 100 ms of 500: not yet
    piece_fall(&piece, &board, &mut coords, &mut controller, 400);
    assert_eq!(coords, (4, 9)); // the timer fired
    piece_fall(&piece, &board, &mut coords, &mut controller, 500);
    assert_eq!(coords, (4, 8)); // and repeats
}

// A just-pressed key moves at once; a blocked move reports nothing.
#[test]
fn handle_movement_applies_and_refuses() {
    let config = LevelConfig::default();
    let board = setup_board(&config);
    let piece = Piece::new(PieceType::O);
    let mut controller = PieceController::new(&config);
    let mut coords = (0, 5);

    let ev = handle_movement(
        &piece, &board, &mut coords, &mut controller,
        MoveDirection::Right, true, 200, 10,
    );
    assert_eq!(ev, Some(ActionEvent::Movement(MoveDirection::Right)));
    assert_eq!(coords, (1, 5));

    // O sits in columns 1..=2 of its local box: at offset -1 it hugs the
    // left wall, and a further left move is refused
    coords = (-1, 5);
    let ev = handle_movement(
        &piece, &board, &mut coords, &mut controller,
        MoveDirection::Left, true, 200, 10,
    );
    assert_eq!(ev, None);
    assert_eq!(coords, (-1, 5));

    // without a fresh press, nothing happens before the repeat timer fires
    coords = (0, 5);
    let ev = handle_movement(
        &piece, &board, &mut coords, &mut controller,
        MoveDirection::Right, false, 200, 10,
    );
    assert_eq!(ev, None);
    assert_eq!(coords, (0, 5));
}

// A successful move resets the lock timer: the lock-delay-reset rule.
#[test]
fn movement_resets_the_lock_timer() {
    let config = LevelConfig::default();
    let board = setup_board(&config);
    let piece = Piece::new(PieceType::O);
    let mut controller = PieceController::new(&config);
    let mut coords = (0, 5);
    controller.placing_timer.tick(300);
    assert_eq!(controller.placing_timer.elapsed_ms, 300);
    handle_movement(
        &piece, &board, &mut coords, &mut controller,
        MoveDirection::Right, true, 200, 0,
    );
    assert_eq!(controller.placing_timer.elapsed_ms, 0);
}

// A rotation in open space succeeds without a kick and reports no corners
// for a non-T piece.
#[test]
fn handle_rotation_turns_in_open_space() {
    let config = LevelConfig::default();
    let board = setup_board(&config);
    let mut piece = Piece::new(PieceType::J);
    let mut controller = PieceController::new(&config);
    let mut coords = (4, 10);

    let ev = handle_rotation(&mut piece, &board, &mut coords, &mut controller, true);
    assert_eq!(
        ev,
        Some(ActionEvent::Rotation(PieceRotation::R90, PieceType::J, 0, false))
    );
    assert_eq!(piece.rotation(), PieceRotation::R90);
    assert_eq!(coords, (4, 10));

    let ev = handle_rotation(&mut piece, &board, &mut coords, &mut controller, false);
    assert_eq!(
        ev,
        Some(ActionEvent::Rotation(PieceRotation::R0, PieceType::J, 0, false))
    );
    assert_eq!(piece.rotation(), PieceRotation::R0);
}

// A T piece turned into a pocket with three occupied diagonals reports a
// corner count of three.
#[test]
fn t_rotation_into_pocket_reports_three_corners() {
    let config = LevelConfig::default();
    let mut board = setup_board(&config);
    board.set(0, 0, CellKind::Occupied(PieceType::L));
    board.set(2, 0, CellKind::Occupied(PieceType::L));
    board.set(0, 2, CellKind::Occupied(PieceType::L));

    let mut piece = Piece::new(PieceType::T);
    let mut controller = PieceController::new(&config);
    let mut coords = (0, 0);

    let ev = handle_rotation(&mut piece, &board, &mut coords, &mut controller, true);
    match ev {
        Some(ActionEvent::Rotation(rotation, piece_type, corners, kicked)) => {
            assert_eq!(rotation, PieceRotation::R90);
            assert_eq!(piece_type, PieceType::T);
            assert_eq!(corners, 3);
            assert!(!kicked);
        }
        other => panic!("unexpected rotation outcome: {:?}", other),
    }
}

// A hard drop falls to the floor, scores two per row, and flags the lock.
#[test]
fn hard_drop_falls_to_the_floor() {
    let config = LevelConfig::default();
    let board = setup_board(&config);
    let piece = Piece::new(PieceType::O);
    let mut controller = PieceController::new(&config);
    let mut coords = (3, 10);

    let ev = handle_hard_drop(&piece, &board, &mut coords, &mut controller);
    assert_eq!(ev, ActionEvent::HardDrop(11));
    assert_eq!(coords, (3, -1)); // O sits one row above its local origin
    assert!(controller.hard_dropped);

    // the ghost position agrees with the hard drop
    let (ghost, steps) = drop_coords(&piece, &board, (3, 10));
    assert_eq!(ghost, (3, -1));
    assert_eq!(steps, 11);
}

// The hold swap: the first swap stores the piece and spawns the drawn one;
// a second swap for the same piece is refused.
#[test]
fn swap_hold_stores_and_refuses_reuse() {
    let config = LevelConfig::default();
    let mut holder = PieceHolder::default();
    let mut generator = PieceGenerator::new();
    let mut controller = PieceController::new(&config);
    let current = Piece::new(PieceType::S);

    // not pressed: nothing happens
    assert!(swap_hold(&mut holder, &mut generator, &config, &current, &mut controller, false)
        .is_none());

    let swapped = swap_hold(&mut holder, &mut generator, &config, &current, &mut controller, true);
    let (next, at) = swapped.expect("first swap must succeed");
    assert_eq!(next.rotation(), PieceRotation::R0);
    assert_eq!(at, config.spawn_coords(&next));
    match holder.piece {
        Some(held) => assert_eq!(held.piece_type(), PieceType::S),
        None => panic!("the falling piece must be held"),
    }
    assert!(controller.used_hold);

    // the hold was used: a second swap is refused
    assert!(swap_hold(&mut holder, &mut generator, &config, &next, &mut controller, true)
        .is_none());
}

// Locking writes the piece into the board and clears any full lines.
#[test]
fn piece_place_locks_and_clears() {
    let config = LevelConfig::default();
    let mut board = setup_board(&config);
    // fill the bottom row except the two columns the O piece will land in
    for x in 0..10 {
        if x != 4 && x != 5 {
            board.set(x, 0, CellKind::Occupied(PieceType::I));
        }
    }
    let piece = Piece::new(PieceType::O);
    let mut controller = PieceController::new(&config);
    // O occupies local columns 1..=2, rows 1..=2: offset (3, -1) puts its
    // lower row onto board row 0
    let coords = (3, -1);

    // before the lock timer expires nothing happens
    let ev = piece_place(&mut board, &piece, coords, &mut controller, 100);
    assert_eq!(ev, None);

    // let it expire: the piece locks, the bottom row clears
    let ev = piece_place(&mut board, &piece, coords, &mut controller, 400);
    assert_eq!(ev, Some(PlacingEvent::Locked(1)));
    // of the ten bottom-row blocks and four O cells, the cleared row took
    // ten; the O's upper two cells slid down to the bottom row
    assert_eq!(board.cells().len(), 2);
    assert!(board.get_cell_kind(4, 0).is_some());
    assert!(board.get_cell_kind(5, 0).is_some());

    // a lock with nothing cleared reports zero lines
    let piece2 = Piece::new(PieceType::T);
    let mut controller2 = PieceController::new(&config);
    controller2.hard_dropped = true; // a hard drop locks at once
    let ev = piece_place(&mut board, &piece2, (0, 0), &mut controller2, 0);
    assert_eq!(ev, Some(PlacingEvent::Locked(0)));
    assert!(!controller2.hard_dropped);
}

// lock_piece writes exactly the piece's cells.
#[test]
fn lock_piece_writes_the_footprint() {
    let config = LevelConfig::default();
    let mut board = setup_board(&config);
    let piece = Piece::new(PieceType::T);
    lock_piece(&mut board, &piece, (2, 3));
    let coords = board.cell_coords();
    assert_eq!(coords, vec![(2, 4), (3, 4), (4, 4), (3, 5)]);
}

// Spawning draws a piece, centers it above the field, and reports a game
// over when the spawn position is blocked.
#[test]
fn spawn_piece_centers_and_detects_game_over() {
    let config = LevelConfig::default();
    let board = setup_board(&config);
    let mut generator = PieceGenerator::new();
    let spawned = spawn_piece(&mut generator, &board, &config);
    let (piece, at, controller) = spawned.expect("an empty board must accept a spawn");
    assert_eq!(at, config.spawn_coords(&piece));
    assert_eq!(at.1, 20);
    assert!(!controller.used_hold && !controller.hard_dropped);

    // block the spawn rows completely: the next spawn is a game over
    let mut blocked = setup_board(&config);
    for x in 0..10 {
        for y in 20..24 {
            blocked.set(x, y, CellKind::Occupied(PieceType::I));
        }
    }
    let mut generator = PieceGenerator::new();
    assert!(spawn_piece(&mut generator, &blocked, &config).is_none());
}

// The default configuration matches the standard game.
#[test]
fn default_config_is_the_standard_game() {
    let config = LevelConfig::default();
    assert_eq!(config.board_width, 10);
    assert_eq!(config.board_height, 20);
    assert_eq!(config.preview_count, 6);
    assert_eq!(config.fall_duration_ms, 500);
    assert_eq!(config.placing_duration_ms, 500);
    assert_eq!(config.movement_duration_ms, 200);
    assert_eq!(config.soft_drop_duration_ms, 50);
    let board = setup_board(&config);
    assert_eq!(board.width(), 10);
    assert_eq!(board.height(), 20);
    let controller = PieceController::default();
    assert!(controller.falling_timer.repeating);
    assert!(!controller.placing_timer.repeating);
    assert_eq!(controller.placing_timer.duration_ms, 500);
}

// The hold swap draws from the generator even when the slot already holds a
// piece; the drawn piece is discarded, so the draw order skips one.
#[test]
fn swap_hold_consumes_a_draw_even_when_holding() {
    let config = LevelConfig::default();
    let mut generator = PieceGenerator::new();
    let upcoming = generator.preview(2);

    let mut holder = PieceHolder::default();
    holder.piece = Some(Piece::new(PieceType::S));
    let mut controller = PieceController::new(&config);
    let current = Piece::new(PieceType::T);

    let swapped =
        swap_hold(&mut holder, &mut generator, &config, &current, &mut controller, true);
    let (next, _) = swapped.expect("the swap must succeed");
    // the held piece comes back into play, not the drawn one
    assert_eq!(next.piece_type(), PieceType::S);
    // the nearest queued piece was drawn and discarded by the swap
    assert_eq!(generator.next().unwrap(), upcoming[1]);
}
