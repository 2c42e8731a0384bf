//! The scoring rule engine: per-action drop points, line-clear and T-spin
//! classification at lock time, combo counting and the back-to-back bonus.

use crate::pieces::MoveDirection;
use crate::pieces::PieceRotation;
use crate::pieces::PieceType;
use vstd::prelude::*;

verus! {

/// An action the player performed on the falling piece, as the scorer sees
/// it: a step in some direction, a rotation (with the piece type, the count
/// of occupied diagonal corner cells, and whether a wall kick was needed), a
/// hard drop over some number of rows, or a hold swap.
#[derive(Copy, Clone, Debug, PartialEq, Eq, Structural)]
pub enum ActionEvent {
    Movement(MoveDirection),
    Rotation(PieceRotation, PieceType, usize, bool),
    HardDrop(usize),
    Hold,
}

/// What happened to the falling piece: it touched down (`Placed`), or it was
/// locked into the board with the given number of lines cleared.
#[derive(Copy, Clone, Debug, PartialEq, Eq, Structural)]
pub enum PlacingEvent {
    Placed,
    Locked(usize),
}

/// The kind of score a lock earned, reported for display and sound.
#[derive(Copy, Clone, Debug, PartialEq, Eq, Structural)]
pub enum ScoreType {
    Single,
    Double,
    Triple,
    Tetris,
    TSpin,
    MiniTSpin,
    Combo(usize),
    BackToBack,
}

/// The points an action earns the moment it happens: two per row of a hard
/// drop, one per soft-drop step, nothing otherwise.
pub open spec fn action_score(ev: ActionEvent) -> int {
    match ev {
        ActionEvent::HardDrop(rows) => 2 * rows,
        ActionEvent::Movement(MoveDirection::Down) => 1,
        _ => 0,
    }
}

/// The action a lock is classified by: the last action recorded, except that
/// one trailing hard drop is skipped (a hard drop must not mask the rotation
/// that set up a spin). None if there is no such action.
pub open spec fn last_meaningful(h: Seq<ActionEvent>) -> Option<ActionEvent> {
    if h.len() == 0 {
        None
    } else if h.last() is HardDrop {
        if h.len() < 2 {
            None
        } else {
            Some(h[h.len() - 2])
        }
    } else {
        Some(h.last())
    }
}

/// Spin classification of a lock: from the cleared-line count and the action
/// the lock is classified by, the spin score, the score tags, and whether
/// the clear counts as difficult. Only a rotation of a T piece can qualify;
/// full T-spins (three corner cells occupied) outrank mini T-spins (wall
/// kicked), and a spin that clears no lines is never difficult.
pub open spec fn spin_class(lines: int, last: Option<ActionEvent>) -> (int, Seq<ScoreType>, bool) {
    match last {
        Some(ActionEvent::Rotation(_, PieceType::T, corners, kicked)) => {
            if lines == 1 && corners == 3 {
                (800, seq![ScoreType::TSpin, ScoreType::Single], true)
            } else if lines == 3 && (corners == 3 || corners == 4) {
                (1600, seq![ScoreType::TSpin, ScoreType::Triple], true)
            } else if lines == 2 && (corners == 3 || corners == 4) {
                (1200, seq![ScoreType::TSpin, ScoreType::Double], true)
            } else if lines == 2 && kicked {
                (400, seq![ScoreType::MiniTSpin, ScoreType::Double], true)
            } else if lines == 1 && kicked {
                (200, seq![ScoreType::MiniTSpin, ScoreType::Single], true)
            } else if lines == 0 && kicked {
                (100, seq![ScoreType::MiniTSpin], false)
            } else if lines == 0 && corners == 3 {
                (400, seq![ScoreType::TSpin], false)
            } else {
                (0, Seq::empty(), false)
            }
        },
        _ => (0, Seq::empty(), false),
    }
}

/// The plain line-clear score and tag for one to four cleared lines; four at
/// once is a Tetris and counts as difficult.
pub open spec fn line_clear_class(lines: int) -> (int, ScoreType, bool) {
    if lines == 1 {
        (100, ScoreType::Single, false)
    } else if lines == 2 {
        (300, ScoreType::Double, false)
    } else if lines == 3 {
        (500, ScoreType::Triple, false)
    } else {
        (800, ScoreType::Tetris, true)
    }
}

/// The scorer's whole state, for specification.
#[verifier::ext_equal]
pub ghost struct ScorerView {
    pub history: Seq<ActionEvent>,
    pub score: int,
    pub lines: int,
    pub combo: int,
    pub difficult: bool,
    pub strict_back_to_back: bool,
}

/// What one `Locked(n)` event does to the scorer, and the score tags it
/// emits.
///
/// With no lines cleared, the combo resets and only a no-line spin score can
/// be added. With lines cleared: the spin score applies, or else the plain
/// line-clear score; an active combo first banks fifty points per combo
/// count into the total; the combo count rises by one; and a difficult
/// clear right after a difficult clear earns the back-to-back bonus.
///
/// The back-to-back bonus has two modes. In the strict mode it is the
/// documented rule: the lock's own score times one and a half, rounded down.
/// In the default mode it reproduces the engine's quirk: the lock's own
/// score is replaced by three halves of the running total and added on top
/// of it, which compounds the total every time it triggers.
pub open spec fn locked_update(s: ScorerView, n: int) -> (ScorerView, Seq<ScoreType>) {
    let (spin_score, spin_types, spin_difficult) = spin_class(n, last_meaningful(s.history));
    if n == 0 {
        (
            ScorerView {
                history: s.history,
                score: s.score + spin_score,
                lines: s.lines,
                combo: 0,
                difficult: s.difficult,
                strict_back_to_back: s.strict_back_to_back,
            },
            spin_types,
        )
    } else {
        let (base, types_a, difficult) = if spin_types.len() == 0 {
            let (line_score, line_type, line_difficult) = line_clear_class(n);
            (line_score, seq![line_type], line_difficult)
        } else {
            (spin_score, spin_types, spin_difficult)
        };
        let banked = s.score + if s.combo > 0 {
            50 * s.combo
        } else {
            0
        };
        let types_b = if s.combo > 0 {
            types_a.push(ScoreType::Combo(((s.combo + 1) as usize)))
        } else {
            types_a
        };
        let back_to_back = difficult && s.difficult;
        let delta = if back_to_back {
            if s.strict_back_to_back {
                base + base / 2
            } else {
                banked + banked / 2
            }
        } else {
            base
        };
        let types_c = if back_to_back {
            types_b.push(ScoreType::BackToBack)
        } else {
            types_b
        };
        (
            ScorerView {
                history: s.history,
                score: banked + delta,
                lines: s.lines + n,
                combo: s.combo + 1,
                difficult,
                strict_back_to_back: s.strict_back_to_back,
            },
            types_c,
        )
    }
}

/// Accumulates the score, the cleared-line count, the running combo, and
/// whether the last clear was difficult; keeps the action history needed to
/// attribute a lock to the rotation that caused it.
pub struct Scorer {
    action_history: Vec<ActionEvent>,
    pub score: usize,
    pub lines: usize,
    pub combo: usize,
    pub difficult_action: bool,
    pub strict_back_to_back: bool,
}

impl View for Scorer {
    type V = ScorerView;

    closed spec fn view(&self) -> ScorerView {
        ScorerView {
            history: self.action_history@,
            score: self.score as int,
            lines: self.lines as int,
            combo: self.combo as int,
            difficult: self.difficult_action,
            strict_back_to_back: self.strict_back_to_back,
        }
    }
}

impl Scorer {
    /// A fresh scorer: nothing scored, no history, no combo, with the
    /// engine's whole-score back-to-back quirk in force.
    pub fn new() -> (r: Scorer)
        ensures
            r@ == (ScorerView {
                history: Seq::empty(),
                score: 0,
                lines: 0,
                combo: 0,
                difficult: false,
                strict_back_to_back: false,
            }),
    {
        let r = Scorer {
            action_history: Vec::new(),
            score: 0,
            lines: 0,
            combo: 0,
            difficult_action: false,
            strict_back_to_back: false,
        };
        proof {
            assert(r@ =~= (ScorerView {
                history: Seq::empty(),
                score: 0,
                lines: 0,
                combo: 0,
                difficult: false,
                strict_back_to_back: false,
            }));
        }
        r
    }

    /// Record one action: it joins the history, and a hard or soft drop
    /// scores its points at once.
    pub fn record_action(&mut self, ev: ActionEvent)
        requires
            old(self)@.score + action_score(ev) <= usize::MAX,
        ensures
            final(self)@ == (ScorerView {
                history: old(self)@.history.push(ev),
                score: old(self)@.score + action_score(ev),
                ..old(self)@
            }),
    {
        self.action_history.push(ev);
        match ev {
            ActionEvent::HardDrop(rows) => {
                self.score += 2 * rows;
            },
            ActionEvent::Movement(MoveDirection::Down) => {
                self.score += 1;
            },
            _ => {},
        }
        proof {
            assert(self@ =~= (ScorerView {
                history: old(self)@.history.push(ev),
                score: old(self)@.score + action_score(ev),
                ..old(self)@
            }));
        }
    }

    /// Evaluate a placement event. `Placed` alone scores nothing; a
    /// `Locked(n)` event updates the scorer as `locked_update` says and
    /// returns the score tags earned. At most four lines can clear at once,
    /// and the caller keeps the running totals far enough from the machine
    /// integer's end that no sum here can overflow.
    pub fn handle_placing(&mut self, ev: PlacingEvent) -> (r: Vec<ScoreType>)
        requires
            ev matches PlacingEvent::Locked(n) ==> n <= 4,
            old(self)@.score <= usize::MAX / 8,
            old(self)@.combo <= usize::MAX / 512,
            old(self)@.lines + 4 <= usize::MAX,
        ensures
            ev is Placed ==> final(self)@ == old(self)@ && r@ == Seq::<ScoreType>::empty(),
            ev matches PlacingEvent::Locked(n) ==> final(self)@ == locked_update(
                old(self)@,
                n as int,
            ).0 && r@ == locked_update(old(self)@, n as int).1,
    {
        let lines = match ev {
            PlacingEvent::Placed => {
                return Vec::new();
            },
            PlacingEvent::Locked(lines) => lines,
        };

        let mut score_types: Vec<ScoreType> = Vec::new();

        // the last action that is not itself a hard drop
        let last: Option<ActionEvent> = if self.action_history.len() == 0 {
            None
        } else {
            let last_ev = self.action_history[self.action_history.len() - 1];
            match last_ev {
                ActionEvent::HardDrop(_) => {
                    if self.action_history.len() < 2 {
                        None
                    } else {
                        Some(self.action_history[self.action_history.len() - 2])
                    }
                },
                _ => Some(last_ev),
            }
        };
        proof {
            assert(last == last_meaningful(self@.history));
        }

        let mut difficult_action = false;
        let mut score: usize = 0;
        if let Some(ActionEvent::Rotation(_, PieceType::T, corners, kicked)) = last {
            if lines == 1 && corners == 3 {
                difficult_action = true;
                score = 800;
                score_types.push(ScoreType::TSpin);
                score_types.push(ScoreType::Single);
            } else if lines == 3 && (corners == 3 || corners == 4) {
                difficult_action = true;
                score = 1600;
                score_types.push(ScoreType::TSpin);
                score_types.push(ScoreType::Triple);
            } else if lines == 2 && (corners == 3 || corners == 4) {
                difficult_action = true;
                score = 1200;
                score_types.push(ScoreType::TSpin);
                score_types.push(ScoreType::Double);
            } else if lines == 2 && kicked {
                difficult_action = true;
                score = 400;
                score_types.push(ScoreType::MiniTSpin);
                score_types.push(ScoreType::Double);
            } else if lines == 1 && kicked {
                difficult_action = true;
                score = 200;
                score_types.push(ScoreType::MiniTSpin);
                score_types.push(ScoreType::Single);
            } else if lines == 0 && kicked {
                score = 100;
                score_types.push(ScoreType::MiniTSpin);
            } else if lines == 0 && corners == 3 {
                score = 400;
                score_types.push(ScoreType::TSpin);
            }
        }
        let ghost spin = spin_class(lines as int, last);
        proof {
            assert(score == spin.0 && score_types@ =~= spin.1 && difficult_action == spin.2);
        }

        self.lines += lines;

        if lines == 0 {
            self.combo = 0;  // no lines cleared: the combo is over
        } else {
            if score_types.len() == 0 {
                let (line_clear_score, score_type): (usize, ScoreType) = match lines {
                    1 => (100, ScoreType::Single),
                    2 => (300, ScoreType::Double),
                    3 => (500, ScoreType::Triple),
                    _ => {
                        difficult_action = true;
                        (800, ScoreType::Tetris)
                    },
                };
                score += line_clear_score;
                score_types.push(score_type);
            }

            if self.combo > 0 {
                self.score += self.combo * 50;  // each combo banks fifty points
                score_types.push(ScoreType::Combo(self.combo + 1));
            }

            self.combo += 1;

            if difficult_action && self.difficult_action {
                // back-to-back difficult clears
                if self.strict_back_to_back {
                    // the documented rule: this lock's score times one and a
                    // half, rounded down
                    score = score + score / 2;
                } else {
                    // the engine's quirk: three halves of the running total,
                    // rounded down, replace this lock's own score
                    score = self.score + self.score / 2;
                }
                score_types.push(ScoreType::BackToBack);
            }

            self.difficult_action = difficult_action;
        }

        self.score += score;

        proof {
            assert(final(self)@ =~= locked_update(old(self)@, lines as int).0);
            assert(score_types@ =~= locked_update(old(self)@, lines as int).1);
        }
        score_types
    }
}

impl Default for Scorer {
    /// A fresh scorer: nothing scored, no history, no combo, with the
    /// engine's whole-score back-to-back quirk in force.
    fn default() -> (r: Self)
        ensures
            r@ == (ScorerView {
                history: Seq::empty(),
                score: 0,
                lines: 0,
                combo: 0,
                difficult: false,
                strict_back_to_back: false,
            }),
    {
        Self::new()
    }
}

} // verus!
