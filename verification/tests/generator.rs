use tetr_online::PieceGenerator;
use tetr_online::PieceType;

#[test]
fn test_piece_generator() {
    let mut generator = PieceGenerator::new();
    for _ in 0..14 {
        let piece = generator.next().unwrap();
        println!("{:?}", piece);
    }
}

// Seven-bag fairness: each consecutive block of seven draws holds every
// piece type exactly once.
#[test]
fn seven_bag_blocks_are_permutations() {
    for _ in 0..20 {
        let mut generator = PieceGenerator::new();
        let draws: Vec<PieceType> = (0..21).map(|_| generator.next().unwrap()).collect();
        for block in 0..3 {
            for kind in PieceType::all() {
                let count = draws[block * 7..block * 7 + 7]
                    .iter()
                    .filter(|d| **d == kind)
                    .count();
                assert_eq!(count, 1, "{:?} not exactly once in block {}", kind, block);
            }
        }
    }
}

// Previewing twice in a row without drawing returns identical sequences.
#[test]
fn preview_does_not_disturb_draw_order() {
    let mut generator = PieceGenerator::new();
    let first = generator.preview(7);
    let second = generator.preview(7);
    assert_eq!(first, second);
    // and the upcoming draws come out in exactly the previewed order
    for expected in first {
        assert_eq!(generator.next().unwrap(), expected);
    }
}

// The preview shows as many pieces as asked for, nearest first, refilling
// with whole bags as needed.
#[test]
fn preview_shows_what_is_asked_for() {
    let mut generator = PieceGenerator::new();
    assert_eq!(generator.preview(6).len(), 6);
    // draw a few so the bag runs low, forcing a refill on preview
    for _ in 0..5 {
        generator.next().unwrap();
    }
    let preview = generator.preview(7);
    assert_eq!(preview.len(), 7);
    assert_eq!(generator.next().unwrap(), preview[0]);
    // a long lookahead takes several refills at once
    let long = generator.preview(20);
    assert_eq!(long.len(), 20);
    for expected in long {
        assert_eq!(generator.next().unwrap(), expected);
    }
}
