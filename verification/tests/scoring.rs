use tetr_online::ActionEvent;
use tetr_online::MoveDirection;
use tetr_online::PieceRotation;
use tetr_online::PieceType;
use tetr_online::PlacingEvent;
use tetr_online::ScoreType;
use tetr_online::Scorer;

// A single-line clear with no preceding rotation scores exactly 100 and
// starts a combo.
#[test]
fn single_line_clear_scores_one_hundred() {
    let mut scorer = Scorer::new();
    let tags = scorer.handle_placing(PlacingEvent::Locked(1));
    assert_eq!(scorer.score, 100);
    assert_eq!(scorer.combo, 1);
    assert_eq!(scorer.lines, 1);
    assert_eq!(tags, vec![ScoreType::Single]);
}

// A soft-drop step before the lock scores its own point, and the lock is
// still a plain single.
#[test]
fn soft_drop_point_then_single() {
    let mut scorer = Scorer::new();
    scorer.record_action(ActionEvent::Movement(MoveDirection::Down));
    assert_eq!(scorer.score, 1);
    let tags = scorer.handle_placing(PlacingEvent::Locked(1));
    assert_eq!(scorer.score, 101);
    assert_eq!(tags, vec![ScoreType::Single]);
}

// Two consecutive single clears: 100, then 100 plus the 50-point combo
// bonus banked before the combo count rises.
#[test]
fn combo_banks_fifty_per_count() {
    let mut scorer = Scorer::new();
    scorer.handle_placing(PlacingEvent::Locked(1));
    assert_eq!(scorer.score, 100);
    let tags = scorer.handle_placing(PlacingEvent::Locked(1));
    assert_eq!(scorer.score, 250); // 100 + (100 + 50)
    assert_eq!(scorer.combo, 2);
    assert_eq!(tags, vec![ScoreType::Single, ScoreType::Combo(2)]);
}

// A lock with no clear resets the combo.
#[test]
fn no_clear_resets_combo() {
    let mut scorer = Scorer::new();
    scorer.handle_placing(PlacingEvent::Locked(1));
    assert_eq!(scorer.combo, 1);
    let tags = scorer.handle_placing(PlacingEvent::Locked(0));
    assert_eq!(scorer.combo, 0);
    assert_eq!(scorer.score, 100);
    assert!(tags.is_empty());
}

// `Placed` alone scores nothing.
#[test]
fn placed_event_scores_nothing() {
    let mut scorer = Scorer::new();
    let tags = scorer.handle_placing(PlacingEvent::Placed);
    assert!(tags.is_empty());
    assert_eq!(scorer.score, 0);
    assert_eq!(scorer.lines, 0);
}

// A single clear right after a three-corner T rotation is a T-spin single.
#[test]
fn t_spin_single_scores_eight_hundred() {
    let mut scorer = Scorer::new();
    scorer.record_action(ActionEvent::Rotation(
        PieceRotation::R180,
        PieceType::T,
        3,
        false,
    ));
    let tags = scorer.handle_placing(PlacingEvent::Locked(1));
    assert_eq!(scorer.score, 800);
    assert_eq!(tags, vec![ScoreType::TSpin, ScoreType::Single]);
}

// A trailing hard drop does not mask the rotation that set up the spin.
#[test]
fn hard_drop_does_not_mask_the_spin() {
    let mut scorer = Scorer::new();
    scorer.record_action(ActionEvent::Rotation(
        PieceRotation::R180,
        PieceType::T,
        3,
        false,
    ));
    scorer.record_action(ActionEvent::HardDrop(5));
    assert_eq!(scorer.score, 10); // two points per hard-dropped row
    let tags = scorer.handle_placing(PlacingEvent::Locked(1));
    assert_eq!(scorer.score, 810);
    assert_eq!(tags, vec![ScoreType::TSpin, ScoreType::Single]);
}

// The remaining T-spin classes, each from a fresh scorer.
#[test]
fn t_spin_classes() {
    let lock = |rotation: ActionEvent, lines: usize| {
        let mut scorer = Scorer::new();
        scorer.record_action(rotation);
        let tags = scorer.handle_placing(PlacingEvent::Locked(lines));
        (scorer.score, tags)
    };
    let spin = |corners: usize, kicked: bool| {
        ActionEvent::Rotation(PieceRotation::R90, PieceType::T, corners, kicked)
    };

    assert_eq!(
        lock(spin(3, false), 2),
        (1200, vec![ScoreType::TSpin, ScoreType::Double])
    );
    assert_eq!(
        lock(spin(4, false), 3),
        (1600, vec![ScoreType::TSpin, ScoreType::Triple])
    );
    assert_eq!(
        lock(spin(2, true), 2),
        (400, vec![ScoreType::MiniTSpin, ScoreType::Double])
    );
    assert_eq!(
        lock(spin(2, true), 1),
        (200, vec![ScoreType::MiniTSpin, ScoreType::Single])
    );
    assert_eq!(lock(spin(2, true), 0), (100, vec![ScoreType::MiniTSpin]));
    assert_eq!(lock(spin(3, false), 0), (400, vec![ScoreType::TSpin]));
    // a kicked three-corner spin with no lines is a mini: the kick rule is
    // checked first for no-line spins
    assert_eq!(lock(spin(3, true), 0), (100, vec![ScoreType::MiniTSpin]));
    // two corners, no kick: no spin, a plain single
    assert_eq!(lock(spin(2, false), 1), (100, vec![ScoreType::Single]));
}

// Four lines at once is a Tetris, and a second one is back-to-back: the
// lock's score becomes three halves of the running total on top of it.
#[test]
fn back_to_back_tetris_compounds_the_total() {
    let mut scorer = Scorer::new();
    let tags = scorer.handle_placing(PlacingEvent::Locked(4));
    assert_eq!(scorer.score, 800);
    assert!(scorer.difficult_action);
    assert_eq!(tags, vec![ScoreType::Tetris]);

    let tags = scorer.handle_placing(PlacingEvent::Locked(4));
    // banked: 800 + 50 (combo); delta: 850 + 425; total: 850 + 1275
    assert_eq!(scorer.score, 2125);
    assert_eq!(
        tags,
        vec![ScoreType::Tetris, ScoreType::Combo(2), ScoreType::BackToBack]
    );
    assert_eq!(scorer.lines, 8);
}

// A double and a triple score 300 and 500.
#[test]
fn double_and_triple_scores() {
    let mut scorer = Scorer::new();
    scorer.handle_placing(PlacingEvent::Locked(2));
    assert_eq!(scorer.score, 300);
    let mut scorer = Scorer::new();
    scorer.handle_placing(PlacingEvent::Locked(3));
    assert_eq!(scorer.score, 500);
    assert!(!scorer.difficult_action);
}

// Hold and sideways movement score nothing by themselves.
#[test]
fn neutral_actions_score_nothing() {
    let mut scorer = Scorer::new();
    scorer.record_action(ActionEvent::Hold);
    scorer.record_action(ActionEvent::Movement(MoveDirection::Left));
    scorer.record_action(ActionEvent::Movement(MoveDirection::Right));
    assert_eq!(scorer.score, 0);
}

// In the strict back-to-back mode the bonus is the documented rule: the
// lock's own score times one and a half, not the compounding total.
#[test]
fn strict_back_to_back_scales_only_the_delta() {
    let mut scorer = Scorer::new();
    scorer.strict_back_to_back = true;
    scorer.handle_placing(PlacingEvent::Locked(4));
    assert_eq!(scorer.score, 800);
    let tags = scorer.handle_placing(PlacingEvent::Locked(4));
    // banked: 800 + 50 (combo); delta: 800 * 3 / 2; total: 850 + 1200
    assert_eq!(scorer.score, 2050);
    assert_eq!(
        tags,
        vec![ScoreType::Tetris, ScoreType::Combo(2), ScoreType::BackToBack]
    );
}
