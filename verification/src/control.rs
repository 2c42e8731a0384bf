//! The per-tick decision logic around the falling piece: configuration,
//! countdown timers, the falling/placing state machine, gravity, movement,
//! rotation with its T-spin corner metadata, hard drop, the hold slot, and
//! locking a piece into the board.

use crate::board::Board;
use crate::board::CellKind;
use crate::generator::PieceGenerator;
use crate::pieces::moved_offset;
use crate::pieces::offset_within;
use crate::pieces::kick_table_row;
use crate::pieces::spec_board_size;
use crate::pieces::MoveDirection;
use crate::pieces::Piece;
use crate::pieces::PieceRotation;
use crate::pieces::PieceType;
use crate::score::ActionEvent;
use crate::score::PlacingEvent;
use vstd::prelude::*;

verus! {

/// What the falling piece is doing: falling freely, or resting on support
/// while the lock timer runs ("placing").
#[derive(Copy, Clone, PartialEq, Eq, Structural, Hash, Debug)]
pub enum PlayingState {
    Falling,
    Placing,
}

impl Default for PlayingState {
    /// A fresh piece starts out falling.
    fn default() -> (r: Self)
        ensures
            r == PlayingState::Falling,
    {
        PlayingState::Falling
    }
}

/// The hidden rows kept above the visible play field, so that spawning and
/// rotating near the top needs no special cases.
pub const TOP_MARGIN: usize = 20;

/// The gameplay configuration: board dimensions, lookahead count, and the
/// timer durations, in milliseconds.
pub struct LevelConfig {
    pub board_width: usize,
    pub board_height: usize,
    pub preview_count: usize,
    pub movement_duration_ms: u64,
    pub soft_drop_duration_ms: u64,
    pub fall_duration_ms: u64,
    pub placing_duration_ms: u64,
}

impl LevelConfig {
    /// Sane bounds: at least one column, one row and one millisecond each,
    /// and everything small enough that coordinate and timer arithmetic
    /// stays within machine integers.
    pub open spec fn wf(&self) -> bool {
        &&& 1 <= self.board_width <= 0x1000_0000
        &&& 1 <= self.board_height <= 0x1000_0000
        &&& 1 <= self.movement_duration_ms <= 0x1000_0000_0000
        &&& 1 <= self.soft_drop_duration_ms <= 0x1000_0000_0000
        &&& 1 <= self.fall_duration_ms <= 0x1000_0000_0000
        &&& 1 <= self.placing_duration_ms <= 0x1000_0000_0000
    }

    /// Where a fresh piece spawns: horizontally centered (its local board
    /// against the play field), at the first hidden row above the visible
    /// field.
    pub open spec fn spec_spawn_coords(&self, t: PieceType) -> (int, int) {
        (self.board_width as int / 2 - spec_board_size(t).0 / 2, self.board_height as int)
    }

    /// Where a fresh piece of this shape spawns.
    pub fn spawn_coords(&self, piece: &Piece) -> (r: (isize, isize))
        requires
            self.wf(),
        ensures
            (r.0 as int, r.1 as int) == self.spec_spawn_coords(piece.spec_piece_type()),
    {
        let (offset_x, _offset_y) = piece.board_size();
        (self.board_width as isize / 2 - offset_x as isize / 2, self.board_height as isize)
    }
}

impl Default for LevelConfig {
    /// The standard game: a ten-by-twenty field, six pieces of preview,
    /// half-second gravity and lock delay, and fast soft drops.
    fn default() -> (r: Self)
        ensures
            r == (LevelConfig {
                board_width: 10,
                board_height: 20,
                preview_count: 6,
                movement_duration_ms: 200,
                soft_drop_duration_ms: 50,
                fall_duration_ms: 500,
                placing_duration_ms: 500,
            }),
            r.wf(),
    {
        LevelConfig {
            board_width: 10,
            board_height: 20,
            preview_count: 6,
            movement_duration_ms: 200,
            soft_drop_duration_ms: 50,
            fall_duration_ms: 500,
            placing_duration_ms: 500,
        }
    }
}

/// The play-field board for one game: all empty, with the hidden top margin.
pub fn setup_board(config: &LevelConfig) -> (r: Board)
    requires
        config.wf(),
    ensures
        r.wf(),
        r.spec_width() == config.board_width,
        r.spec_height() == config.board_height,
        r.total_rows() == config.board_height + TOP_MARGIN,
        forall|y: int, x: int|
            0 <= y < r.total_rows() && 0 <= x < r.spec_width() ==> (#[trigger] r.grid()[y][x]).cell_kind
                is Empty,
{
    Board::with_top_margin(config.board_width, config.board_height, TOP_MARGIN)
}

/// A millisecond countdown, advanced by each tick's elapsed time and polled
/// for expiry: the model of the engine's frame timers. A repeating timer
/// fires each time the duration is reached and starts over with the
/// remainder; a one-shot timer stays expired until it is reset.
pub struct TickTimer {
    pub duration_ms: u64,
    pub elapsed_ms: u64,
    pub repeating: bool,
    pub expired: bool,
}

impl TickTimer {
    /// The duration is positive and everything stays far from the integer's
    /// end, so tick arithmetic cannot overflow.
    pub open spec fn wf(&self) -> bool {
        &&& 1 <= self.duration_ms <= 0x1000_0000_0000
        &&& self.elapsed_ms <= 0x1000_0000_0000
    }

    /// A fresh timer with nothing elapsed.
    pub fn new(duration_ms: u64, repeating: bool) -> (r: TickTimer)
        requires
            1 <= duration_ms <= 0x1000_0000_0000,
        ensures
            r == (TickTimer { duration_ms, elapsed_ms: 0, repeating, expired: false }),
    {
        TickTimer { duration_ms, elapsed_ms: 0, repeating, expired: false }
    }

    /// What one tick does to a timer.
    pub open spec fn tick_spec(self, delta_ms: u64) -> TickTimer {
        if self.repeating {
            if self.elapsed_ms + delta_ms >= self.duration_ms {
                TickTimer {
                    elapsed_ms: ((self.elapsed_ms + delta_ms) % (self.duration_ms as int)) as u64,
                    expired: true,
                    ..self
                }
            } else {
                TickTimer { elapsed_ms: (self.elapsed_ms + delta_ms) as u64, expired: false, ..self }
            }
        } else {
            if self.elapsed_ms + delta_ms >= self.duration_ms {
                TickTimer { elapsed_ms: self.duration_ms, expired: true, ..self }
            } else {
                TickTimer { elapsed_ms: (self.elapsed_ms + delta_ms) as u64, ..self }
            }
        }
    }

    /// Advance the countdown by the elapsed frame time and report whether it
    /// has expired.
    pub fn tick(&mut self, delta_ms: u64) -> (fired: bool)
        requires
            old(self).wf(),
            delta_ms <= 0x1000_0000_0000,
        ensures
            final(self).wf(),
            *final(self) == old(self).tick_spec(delta_ms),
            fired == final(self).expired,
    {
        let sum = self.elapsed_ms + delta_ms;
        if sum >= self.duration_ms {
            if self.repeating {
                self.elapsed_ms = sum % self.duration_ms;
            } else {
                self.elapsed_ms = self.duration_ms;
            }
            self.expired = true;
        } else {
            self.elapsed_ms = sum;
            if self.repeating {
                self.expired = false;
            }
        }
        self.expired
    }

    /// Whether the countdown has expired (for a one-shot timer, and stayed
    /// expired).
    pub fn finished(&self) -> (r: bool)
        ensures
            r == self.expired,
    {
        self.expired
    }

    /// Start the countdown over.
    pub fn reset(&mut self)
        ensures
            *final(self) == (TickTimer { elapsed_ms: 0, expired: false, ..*old(self) }),
    {
        self.elapsed_ms = 0;
        self.expired = false;
    }

    /// Change the duration; the elapsed time and expiry state stay.
    pub fn set_duration(&mut self, duration_ms: u64)
        requires
            1 <= duration_ms <= 0x1000_0000_0000,
        ensures
            *final(self) == (TickTimer { duration_ms, ..*old(self) }),
    {
        self.duration_ms = duration_ms;
    }
}

/// The per-piece control state: the gravity, lock ("placing") and
/// movement-repeat timers, and the one-shot flags for hard drops and the
/// hold slot.
pub struct PieceController {
    pub falling_timer: TickTimer,
    pub placing_timer: TickTimer,
    pub movement_timer: TickTimer,
    pub hard_dropped: bool,
    pub used_hold: bool,
}

/// The control state a freshly spawned piece starts with.
pub open spec fn fresh_controller(config: LevelConfig) -> PieceController {
    PieceController {
        falling_timer: TickTimer {
            duration_ms: config.fall_duration_ms,
            elapsed_ms: 0,
            repeating: true,
            expired: false,
        },
        placing_timer: TickTimer {
            duration_ms: config.placing_duration_ms,
            elapsed_ms: 0,
            repeating: false,
            expired: false,
        },
        movement_timer: TickTimer {
            duration_ms: config.movement_duration_ms,
            elapsed_ms: 0,
            repeating: true,
            expired: false,
        },
        hard_dropped: false,
        used_hold: false,
    }
}

impl PieceController {
    /// All three timers are well-formed.
    pub open spec fn wf(&self) -> bool {
        &&& self.falling_timer.wf()
        &&& self.placing_timer.wf()
        &&& self.movement_timer.wf()
    }

    /// Fresh control state for a newly spawned piece: gravity repeating,
    /// lock timer one-shot, neither flag set.
    pub fn new(config: &LevelConfig) -> (r: PieceController)
        requires
            config.wf(),
        ensures
            r == fresh_controller(*config),
            r.wf(),
    {
        PieceController {
            falling_timer: TickTimer::new(config.fall_duration_ms, true),
            placing_timer: TickTimer::new(config.placing_duration_ms, false),
            movement_timer: TickTimer::new(config.movement_duration_ms, true),
            hard_dropped: false,
            used_hold: false,
        }
    }
}

impl Default for PieceController {
    /// Fresh control state under the default configuration.
    fn default() -> (r: Self)
        ensures
            r == fresh_controller(
                LevelConfig {
                    board_width: 10,
                    board_height: 20,
                    preview_count: 6,
                    movement_duration_ms: 200,
                    soft_drop_duration_ms: 50,
                    fall_duration_ms: 500,
                    placing_duration_ms: 500,
                },
            ),
            r.wf(),
    {
        let config = LevelConfig::default();
        Self::new(&config)
    }
}

/// The hold slot: the piece put aside, if any.
pub struct PieceHolder {
    pub piece: Option<Piece>,
}

impl Default for PieceHolder {
    /// An empty hold slot.
    fn default() -> (r: Self)
        ensures
            r.piece is None,
    {
        PieceHolder { piece: None }
    }
}

/// Decide the placement state from the piece's support: a piece that cannot
/// move down is placing (its lock timer runs); one that can is falling.
pub fn detect_placement(
    piece: &Piece,
    board: &Board,
    coords: (isize, isize),
    current: PlayingState,
) -> (r: PlayingState)
    requires
        board.wf(),
        offset_within((coords.0 as int, coords.1 as int), 5),
    ensures
        r == (if piece.collides_at(*board, moved_offset((coords.0 as int, coords.1 as int), MoveDirection::Down)) {
            PlayingState::Placing
        } else {
            PlayingState::Falling
        }),
{
    if piece.try_move(board, coords, MoveDirection::Down).is_err() {
        PlayingState::Placing
    } else {
        PlayingState::Falling
    }
}

/// True iff the visible cell at `(x, y)` is occupied (out-of-field or
/// margin cells never count).
pub open spec fn corner_occupied(b: Board, x: int, y: int) -> bool {
    0 <= x < b.spec_width() && 0 <= y < b.spec_height() && b.stored_kind(x, y) is Occupied
}

/// How many of the four diagonal cells of a piece's three-by-three local box
/// (at offsets zero and two from its origin) are occupied on the board.
pub open spec fn t_corner_count(b: Board, off: (int, int)) -> int {
    (if corner_occupied(b, off.0, off.1) {
        1int
    } else {
        0int
    }) + (if corner_occupied(b, off.0, off.1 + 2) {
        1int
    } else {
        0int
    }) + (if corner_occupied(b, off.0 + 2, off.1) {
        1int
    } else {
        0int
    }) + (if corner_occupied(b, off.0 + 2, off.1 + 2) {
        1int
    } else {
        0int
    })
}

/// Count the occupied diagonal corner cells around a piece's local box at
/// `coords`: the T-spin corner test.
pub fn count_t_spin_corners(board: &Board, coords: (isize, isize)) -> (r: usize)
    requires
        board.wf(),
        offset_within((coords.0 as int, coords.1 as int), 6),
    ensures
        r as int == t_corner_count(*board, (coords.0 as int, coords.1 as int)),
{
    let mut corners: usize = 0;
    if board.get(coords.0, coords.1).is_some() {
        corners += 1;
    }
    if board.get(coords.0, coords.1 + 2).is_some() {
        corners += 1;
    }
    if board.get(coords.0 + 2, coords.1).is_some() {
        corners += 1;
    }
    if board.get(coords.0 + 2, coords.1 + 2).is_some() {
        corners += 1;
    }
    corners
}

/// Gravity: advance the fall timer by the frame time; when it fires and the
/// piece can move down, it does. A blocked fall changes nothing.
pub fn piece_fall(
    piece: &Piece,
    board: &Board,
    coords: &mut (isize, isize),
    controller: &mut PieceController,
    delta_ms: u64,
)
    requires
        board.wf(),
        offset_within((old(coords).0 as int, old(coords).1 as int), 5),
        old(controller).wf(),
        delta_ms <= 0x1000_0000_0000,
    ensures
        final(controller).wf(),
        *final(controller) == (PieceController {
            falling_timer: old(controller).falling_timer.tick_spec(delta_ms),
            ..*old(controller)
        }),
        ({
            let down = moved_offset((old(coords).0 as int, old(coords).1 as int), MoveDirection::Down);
            if old(controller).falling_timer.tick_spec(delta_ms).expired && !piece.collides_at(
                *board,
                down,
            ) {
                (final(coords).0 as int, final(coords).1 as int) == down
            } else {
                *final(coords) == *old(coords)
            }
        }),
{
    let fired = controller.falling_timer.tick(delta_ms);
    if fired {
        if let Ok(new_coords) = piece.try_move(board, *coords, MoveDirection::Down) {
            *coords = new_coords;
        }
    }
}

/// One movement step, if due: the movement timer advances by the frame
/// time, and when it has fired — or the key was just pressed — the piece
/// tries to step in `direction`. A successful step moves the piece, resets
/// the lock timer (the lock-delay-reset rule), sets the repeat interval
/// (which the caller computes from how long the key has been held), and
/// reports the movement; a just-pressed key also restarts the repeat timer.
pub fn handle_movement(
    piece: &Piece,
    board: &Board,
    coords: &mut (isize, isize),
    controller: &mut PieceController,
    direction: MoveDirection,
    just_pressed: bool,
    repeat_duration_ms: u64,
    delta_ms: u64,
) -> (ev: Option<ActionEvent>)
    requires
        board.wf(),
        offset_within((old(coords).0 as int, old(coords).1 as int), 5),
        old(controller).wf(),
        1 <= repeat_duration_ms <= 0x1000_0000_0000,
        delta_ms <= 0x1000_0000_0000,
    ensures
        final(controller).wf(),
        ({
            let t1 = old(controller).movement_timer.tick_spec(delta_ms);
            let target = moved_offset((old(coords).0 as int, old(coords).1 as int), direction);
            let moved = (t1.expired || just_pressed) && !piece.collides_at(*board, target);
            let t2 = if moved {
                TickTimer { duration_ms: repeat_duration_ms, ..t1 }
            } else {
                t1
            };
            let t3 = if (t1.expired || just_pressed) && just_pressed {
                TickTimer { elapsed_ms: 0, expired: false, ..t2 }
            } else {
                t2
            };
            &&& (if moved {
                (final(coords).0 as int, final(coords).1 as int) == target
            } else {
                *final(coords) == *old(coords)
            })
            &&& ev == (if moved {
                Some(ActionEvent::Movement(direction))
            } else {
                None::<ActionEvent>
            })
            &&& *final(controller) == (PieceController {
                movement_timer: t3,
                placing_timer: if moved {
                    TickTimer { elapsed_ms: 0, expired: false, ..old(controller).placing_timer }
                } else {
                    old(controller).placing_timer
                },
                ..*old(controller)
            })
        }),
{
    let fired = controller.movement_timer.tick(delta_ms);
    let mut ev: Option<ActionEvent> = None;
    if fired || just_pressed {
        if let Ok(new_coords) = piece.try_move(board, *coords, direction) {
            *coords = new_coords;
            ev = Some(ActionEvent::Movement(direction));
            controller.placing_timer.reset();
            controller.movement_timer.set_duration(repeat_duration_ms);
        }
        if just_pressed {
            controller.movement_timer.reset();
        }
    }
    ev
}

/// The orientation a rotation request aims for: one quarter turn from the
/// piece's current orientation, in the requested direction.
pub open spec fn rotation_target(p: Piece, clockwise: bool) -> PieceRotation {
    if clockwise {
        PieceRotation::R90.plus_spec(p.spec_rotation())
    } else {
        PieceRotation::R270.plus_spec(p.spec_rotation())
    }
}

/// One rotation attempt, a quarter turn clockwise or counterclockwise, with
/// wall kicks. On success the piece takes its new orientation and position,
/// the lock timer resets, and the reported event carries the piece type, the
/// occupied-corner count (counted for a T piece only, right after the turn)
/// and whether a wall kick was needed. On failure nothing changes.
#[verifier::rlimit(100)]
pub fn handle_rotation(
    piece: &mut Piece,
    board: &Board,
    coords: &mut (isize, isize),
    controller: &mut PieceController,
    clockwise: bool,
) -> (ev: Option<ActionEvent>)
    requires
        board.wf(),
        offset_within((old(coords).0 as int, old(coords).1 as int), 8),
        old(controller).wf(),
    ensures
        final(controller).wf(),
        ev is None ==> *final(piece) == *old(piece) && *final(coords) == *old(coords)
            && *final(controller) == *old(controller),
        ev is None && old(piece).spec_piece_type() != PieceType::O ==> ({
            let off = (old(coords).0 as int, old(coords).1 as int);
            let target = rotation_target(*old(piece), clockwise);
            let row = kick_table_row(old(piece).spec_piece_type(), old(piece).spec_rotation(), target);
            let turned = old(piece).with_rotation(target);
            forall|j: int|
                0 <= j < 5 ==> turned.collides_at(
                    *board,
                    (off.0 + (#[trigger] row[j]).0, off.1 + row[j].1),
                )
        }),
        ev is Some ==> *final(controller) == (PieceController {
            placing_timer: TickTimer {
                elapsed_ms: 0,
                expired: false,
                ..old(controller).placing_timer
            },
            ..*old(controller)
        }),
        ev is Some && old(piece).spec_piece_type() == PieceType::O ==> *final(piece) == old(
            piece,
        ).with_rotation(PieceRotation::R0) && *final(coords) == *old(coords) && ev == Some(
            ActionEvent::Rotation(PieceRotation::R0, PieceType::O, 0, false),
        ),
        ev is Some && old(piece).spec_piece_type() != PieceType::O ==> ({
            let off = (old(coords).0 as int, old(coords).1 as int);
            let t = old(piece).spec_piece_type();
            let target = rotation_target(*old(piece), clockwise);
            let row = kick_table_row(t, old(piece).spec_rotation(), target);
            let turned = old(piece).with_rotation(target);
            exists|k: int|
                {
                    &&& 0 <= k < 5
                    &&& !turned.collides_at(
                        *board,
                        (off.0 + (#[trigger] row[k]).0, off.1 + row[k].1),
                    )
                    &&& forall|j: int|
                        0 <= j < k ==> turned.collides_at(
                            *board,
                            (off.0 + (#[trigger] row[j]).0, off.1 + row[j].1),
                        )
                    &&& *final(piece) == turned
                    &&& (final(coords).0 as int, final(coords).1 as int) == (
                        off.0 + row[k].0,
                        off.1 + row[k].1,
                    )
                    &&& ev == Some(
                        ActionEvent::Rotation(
                            target,
                            t,
                            (if t == PieceType::T {
                                t_corner_count(*board, (off.0 + row[k].0, off.1 + row[k].1))
                            } else {
                                0
                            }) as usize,
                            k != 0,
                        ),
                    )
                }
        }),
{
    let target = if clockwise {
        PieceRotation::R90.plus(piece.rotation())
    } else {
        PieceRotation::R270.plus(piece.rotation())
    };

    let ghost off = (coords.0 as int, coords.1 as int);
    match piece.try_rotate_with_kicks(board, *coords, target) {
        Ok((rotation, new_coords, wall_kick_set)) => {
            piece.rotate_to(rotation);
            *coords = new_coords;
            controller.placing_timer.reset();

            // count the occupied corners for T-spin detection
            let corners: usize = if matches!(piece.piece_type(), PieceType::T) {
                count_t_spin_corners(board, *coords)
            } else {
                0
            };

            let ev = ActionEvent::Rotation(
                rotation,
                piece.piece_type(),
                corners,
                wall_kick_set != 0,
            );
            proof {
                let t = old(piece).spec_piece_type();
                let turned = old(piece).with_rotation(target);
                if t != PieceType::O {
                    let row = kick_table_row(t, old(piece).spec_rotation(), target);
                    let kw = wall_kick_set as int;
                    assert({
                        &&& 0 <= kw < 5
                        &&& !turned.collides_at(
                            *board,
                            (off.0 + (#[trigger] row[kw]).0, off.1 + row[kw].1),
                        )
                        &&& forall|j: int|
                            0 <= j < kw ==> turned.collides_at(
                                *board,
                                (off.0 + (#[trigger] row[j]).0, off.1 + row[j].1),
                            )
                        &&& *piece == turned
                        &&& (coords.0 as int, coords.1 as int) == (
                            off.0 + row[kw].0,
                            off.1 + row[kw].1,
                        )
                        &&& ev == ActionEvent::Rotation(
                            target,
                            t,
                            (if t == PieceType::T {
                                t_corner_count(*board, (off.0 + row[kw].0, off.1 + row[kw].1))
                            } else {
                                0
                            }) as usize,
                            kw != 0,
                        )
                    });
                }
            }
            Some(ev)
        },
        Err(_) => None,
    }
}

/// The lowest position straight below `coords` that the piece can occupy,
/// and how many rows down that is: from there it can fall no further.
pub fn drop_coords(piece: &Piece, board: &Board, coords: (isize, isize)) -> (r: (
    (isize, isize),
    usize,
))
    requires
        board.wf(),
        offset_within((coords.0 as int, coords.1 as int), 5),
    ensures
        r.0.0 == coords.0,
        r.0.1 as int == coords.1 - r.1,
        offset_within((r.0.0 as int, r.0.1 as int), 5),
        piece.collides_at(
            *board,
            moved_offset((r.0.0 as int, r.0.1 as int), MoveDirection::Down),
        ),
        forall|yy: int|
            r.0.1 <= yy < coords.1 ==> !(#[trigger] piece.collides_at(
                *board,
                (coords.0 as int, yy),
            )),
{
    let mut cur = coords;
    let mut steps: usize = 0;
    loop
        invariant
            board.wf(),
            offset_within((coords.0 as int, coords.1 as int), 5),
            cur.0 == coords.0,
            cur.1 as int == coords.1 - steps,
            steps > 0 ==> cur.1 >= -4,
            offset_within((cur.0 as int, cur.1 as int), 5),
            forall|yy: int|
                cur.1 <= yy < coords.1 ==> !(#[trigger] piece.collides_at(
                    *board,
                    (coords.0 as int, yy),
                )),
        decreases cur.1 - isize::MIN,
    {
        match piece.try_move(board, cur, MoveDirection::Down) {
            Ok(new_coords) => {
                proof {
                    if new_coords.1 <= -4 {
                        piece.lemma_low_offset_collides(
                            *board,
                            (new_coords.0 as int, new_coords.1 as int),
                        );
                        assert(false);
                    }
                }
                cur = new_coords;
                steps += 1;
            },
            Err(_) => {
                return (cur, steps);
            },
        }
    }
}

/// Hard drop: the piece falls straight to its drop position, the lock timer
/// resets if it moved at all, and the hard-drop flag is raised so the next
/// placement tick locks it at once. Reports how many rows it fell, which
/// scores two points each.
pub fn handle_hard_drop(
    piece: &Piece,
    board: &Board,
    coords: &mut (isize, isize),
    controller: &mut PieceController,
) -> (ev: ActionEvent)
    requires
        board.wf(),
        offset_within((old(coords).0 as int, old(coords).1 as int), 5),
        old(controller).wf(),
    ensures
        final(controller).wf(),
        ({
            let dropped = (final(coords).0 as int, final(coords).1 as int);
            &&& final(coords).0 == old(coords).0
            &&& ev matches ActionEvent::HardDrop(n) && n as int == old(coords).1 - final(coords).1
            &&& piece.collides_at(*board, moved_offset(dropped, MoveDirection::Down))
            &&& forall|yy: int|
                final(coords).1 <= yy < old(coords).1 ==> !(#[trigger] piece.collides_at(
                    *board,
                    (old(coords).0 as int, yy),
                ))
            &&& *final(controller) == (PieceController {
                hard_dropped: true,
                placing_timer: if old(coords).1 != final(coords).1 {
                    TickTimer { elapsed_ms: 0, expired: false, ..old(controller).placing_timer }
                } else {
                    old(controller).placing_timer
                },
                ..*old(controller)
            })
        }),
{
    let (dropped, lines) = drop_coords(piece, board, *coords);
    if lines > 0 {
        controller.placing_timer.reset();
    }
    controller.hard_dropped = true;
    *coords = dropped;
    ActionEvent::HardDrop(lines)
}

/// The hold swap. When the hold key was just pressed and the hold was not
/// already used for this piece: a piece is drawn from the generator
/// regardless (and simply discarded when the slot is occupied — a quirk kept
/// from the engine); the piece to play next is the held one, or the drawn
/// one if the slot was empty; the falling piece goes into the slot; and
/// fresh control state is made with the hold marked used, so it cannot be
/// swapped again. Returns the new falling piece and its spawn position, or
/// nothing when the guard refuses.
pub fn swap_hold(
    holder: &mut PieceHolder,
    generator: &mut PieceGenerator,
    config: &LevelConfig,
    current_piece: &Piece,
    controller: &mut PieceController,
    just_pressed: bool,
) -> (r: Option<(Piece, (isize, isize))>)
    requires
        old(generator).wf(),
        config.wf(),
    ensures
        final(generator).wf(),
        !(just_pressed && !old(controller).used_hold) ==> {
            &&& r is None
            &&& *final(holder) == *old(holder)
            &&& final(generator).drawn_view() == old(generator).drawn_view()
            &&& *final(controller) == *old(controller)
        },
        (just_pressed && !old(controller).used_hold) ==> (match r {
            Some(pair) => exists|d: PieceType|
                {
                    &&& final(generator).drawn_view() == old(generator).drawn_view().push(d)
                    &&& (match old(holder).piece {
                        Some(held) => pair.0 == held,
                        None => pair.0 == Piece::spawn_spec(d),
                    })
                    &&& final(holder).piece == Some(*current_piece)
                    &&& (pair.1.0 as int, pair.1.1 as int) == config.spec_spawn_coords(
                        pair.0.spec_piece_type(),
                    )
                    &&& *final(controller) == (PieceController {
                        used_hold: true,
                        ..fresh_controller(*config)
                    })
                },
            None => false,
        }),
{
    if !just_pressed || controller.used_hold {
        return None;
    }

    // the generator is drawn from even when the slot holds a piece; the
    // drawn piece is then discarded (a quirk kept from the engine)
    let drawn = match generator.next() {
        Some(t) => t,
        None => {
            proof {
                assert(false);
            }
            PieceType::I
        },
    };
    let next_piece = match holder.piece {
        Some(held) => held,
        None => Piece::from(drawn),
    };

    holder.piece = Some(*current_piece);
    *controller = PieceController::new(config);
    controller.used_hold = true;  // prevent a second swap for this piece

    let at = config.spawn_coords(&next_piece);
    Some((next_piece, at))
}

/// The board's cell states after a piece of type `t` in orientation `r` is
/// written in at offset `off`: each shape cell, translated, becomes occupied
/// by `t`; every other cell keeps its state.
pub open spec fn locked_kinds(b: Board, t: PieceType, r: PieceRotation, off: (int, int)) -> Seq<
    Seq<CellKind>,
> {
    Seq::new(
        b.total_rows() as nat,
        |y: int|
            Seq::new(
                b.spec_width() as nat,
                |x: int|
                    if crate::pieces::shape_cells(t, r).contains((x - off.0, y - off.1)) {
                        CellKind::Occupied(t)
                    } else {
                        b.stored_kind(x, y)
                    },
            ),
    )
}

/// Write the piece's cells, translated by `coords`, into the board as
/// occupied cells of its type. Writes that fall outside the stored grid are
/// dropped, as all board writes are.
pub fn lock_piece(board: &mut Board, piece: &Piece, coords: (isize, isize))
    requires
        old(board).wf(),
        offset_within((coords.0 as int, coords.1 as int), 4),
    ensures
        final(board).wf(),
        final(board).spec_width() == old(board).spec_width(),
        final(board).spec_height() == old(board).spec_height(),
        final(board).total_rows() == old(board).total_rows(),
        final(board).kinds_grid() == locked_kinds(
            *old(board),
            piece.spec_piece_type(),
            piece.spec_rotation(),
            (coords.0 as int, coords.1 as int),
        ),
{
    let ghost t = piece.spec_piece_type();
    let ghost rot = piece.spec_rotation();
    let ghost off = (coords.0 as int, coords.1 as int);
    let shape = piece.shape_points();
    let ghost pts = crate::pieces::shape_cells(t, rot);
    proof {
        crate::pieces::lemma_shape_cells_ok(t, rot);
    }
    let mut i: usize = 0;
    while i < shape.len()
        invariant
            t == piece.spec_piece_type(),
            rot == piece.spec_rotation(),
            off == (coords.0 as int, coords.1 as int),
            offset_within(off, 4),
            board.wf(),
            board.spec_width() == old(board).spec_width(),
            board.spec_height() == old(board).spec_height(),
            board.total_rows() == old(board).total_rows(),
            pts == crate::pieces::shape_cells(t, rot),
            pts == crate::pieces::points_of(shape@),
            shape@.len() == 4,
            i <= 4,
            pts.len() == 4,
            forall|j: int| 0 <= j < 4 ==> 0 <= (#[trigger] pts[j]).0 < 4 && 0 <= (pts[j]).1 < 4,
            forall|y: int, x: int|
                0 <= y < board.total_rows() && 0 <= x < board.spec_width()
                    ==> #[trigger] board.stored_kind(x, y) == (if pts.take(i as int).contains(
                    (x - off.0, y - off.1),
                ) {
                    CellKind::Occupied(t)
                } else {
                    old(board).stored_kind(x, y)
                }),
        decreases shape@.len() - i,
    {
        let (cx, cy) = shape[i];
        let ghost pre = *board;
        proof {
            assert(pts[i as int] == (cx as int, cy as int));
        }
        board.set(cx + coords.0, cy + coords.1, CellKind::Occupied(piece.piece_type()));
        proof {
            let px = pts[i as int].0 + off.0;
            let py = pts[i as int].1 + off.1;
            assert(pts.take(i + 1) =~= pts.take(i as int).push(pts[i as int]));
            assert forall|y: int, x: int|
                0 <= y < board.total_rows() && 0 <= x
                    < board.spec_width() implies #[trigger] board.stored_kind(x, y) == (if pts.take(
                i + 1,
            ).contains((x - off.0, y - off.1)) {
                CellKind::Occupied(t)
            } else {
                old(board).stored_kind(x, y)
            }) by {
                if x == px && y == py {
                    assert(pts.take(i + 1).contains((x - off.0, y - off.1))) by {
                        assert(pts.take(i + 1)[i as int] == (x - off.0, y - off.1));
                    }
                } else {
                    assert(board.stored_kind(x, y) == pre.stored_kind(x, y));
                    assert(pts.take(i + 1).contains((x - off.0, y - off.1)) == pts.take(
                        i as int,
                    ).contains((x - off.0, y - off.1))) by {
                        if pts.take(i + 1).contains((x - off.0, y - off.1)) {
                            let w = choose|j: int|
                                0 <= j < i + 1 && #[trigger] pts.take(i + 1)[j] == (
                                    x - off.0,
                                    y - off.1,
                                );
                            if w == i {
                                assert(false);
                            }
                            assert(pts.take(i as int)[w] == (x - off.0, y - off.1));
                        }
                        if pts.take(i as int).contains((x - off.0, y - off.1)) {
                            let w = choose|j: int|
                                0 <= j < i && #[trigger] pts.take(i as int)[j] == (
                                    x - off.0,
                                    y - off.1,
                                );
                            assert(pts.take(i + 1)[w] == (x - off.0, y - off.1));
                        }
                    }
                }
            }
        }
        i += 1;
    }
    proof {
        assert(pts.take(4) =~= pts);
        let target = locked_kinds(*old(board), t, rot, off);
        assert forall|y: int, x: int|
            0 <= y < board.total_rows() && 0 <= x
                < board.spec_width() implies #[trigger] board.kinds_grid()[y][x] == target[y][x] by {
            assert(board.grid()[y].len() == board.spec_width());
            assert(board.kinds_grid()[y][x] == board.stored_kind(x, y));
        }
        assert forall|y: int| 0 <= y < board.total_rows() implies #[trigger] board.kinds_grid()[y]
            =~= target[y] by {
            assert(board.grid()[y].len() == board.spec_width());
        }
        assert(board.kinds_grid() =~= target);
    }
}

/// One tick of the lock countdown. When the lock timer expires — or a hard
/// drop demands it — the piece's cells are written into the board, full
/// lines are cleared, the hard-drop flag is taken down, the lock timer
/// restarts if anything cleared, and a `Locked` event with the cleared-line
/// count is reported. Before that moment nothing changes.
pub fn piece_place(
    board: &mut Board,
    piece: &Piece,
    coords: (isize, isize),
    controller: &mut PieceController,
    delta_ms: u64,
) -> (ev: Option<PlacingEvent>)
    requires
        old(board).wf(),
        old(board).spec_width() >= 1,
        offset_within((coords.0 as int, coords.1 as int), 4),
        old(controller).wf(),
        delta_ms <= 0x1000_0000_0000,
    ensures
        final(board).wf(),
        final(controller).wf(),
        final(board).spec_width() == old(board).spec_width(),
        final(board).spec_height() == old(board).spec_height(),
        final(board).total_rows() == old(board).total_rows(),
        ({
            let t1 = old(controller).placing_timer.tick_spec(delta_ms);
            if !(t1.expired || old(controller).hard_dropped) {
                &&& ev is None
                &&& *final(board) == *old(board)
                &&& *final(controller) == (PieceController { placing_timer: t1, ..*old(controller) })
            } else {
                let locked = locked_kinds(
                    *old(board),
                    piece.spec_piece_type(),
                    piece.spec_rotation(),
                    (coords.0 as int, coords.1 as int),
                );
                let cleared = crate::board::clear_lines_spec(
                    locked,
                    old(board).spec_width(),
                    old(board).spec_height(),
                );
                &&& final(board).kinds_grid() == cleared.0
                &&& ev matches Some(pe) && pe matches PlacingEvent::Locked(n) && n as nat == cleared.1
                &&& *final(controller) == (PieceController {
                    placing_timer: if cleared.1 > 0 {
                        TickTimer { elapsed_ms: 0, expired: false, ..t1 }
                    } else {
                        t1
                    },
                    hard_dropped: false,
                    ..*old(controller)
                })
            }
        }),
{
    let fired = controller.placing_timer.tick(delta_ms);
    if fired || controller.hard_dropped {
        controller.hard_dropped = false;  // the hard drop is spent
        lock_piece(board, piece, coords);
        let line_clear_count = board.clear_lines();
        if line_clear_count > 0 {
            controller.placing_timer.reset();
        }
        Some(PlacingEvent::Locked(line_clear_count))
    } else {
        None
    }
}

/// Draw the next piece and put it at its spawn position with fresh control
/// state — or report a game over (`None`) when the fresh piece already
/// collides there.
pub fn spawn_piece(generator: &mut PieceGenerator, board: &Board, config: &LevelConfig) -> (r:
    Option<(Piece, (isize, isize), PieceController)>)
    requires
        old(generator).wf(),
        board.wf(),
        config.wf(),
    ensures
        final(generator).wf(),
        exists|d: PieceType|
            {
                &&& final(generator).drawn_view() == old(generator).drawn_view().push(d)
                &&& (match r {
                    Some(spawned) => {
                        &&& spawned.0 == #[trigger] Piece::spawn_spec(d)
                        &&& (spawned.1.0 as int, spawned.1.1 as int) == config.spec_spawn_coords(d)
                        &&& !spawned.0.collides_at(
                            *board,
                            (spawned.1.0 as int, spawned.1.1 as int),
                        )
                        &&& spawned.2 == fresh_controller(*config)
                    },
                    None => Piece::spawn_spec(d).collides_at(
                        *board,
                        config.spec_spawn_coords(d),
                    ),
                })
            },
{
    let drawn = match generator.next() {
        Some(t) => t,
        None => {
            proof {
                assert(false);
            }
            PieceType::I
        },
    };
    let piece = Piece::from(drawn);
    let spawn_coords = config.spawn_coords(&piece);
    proof {
        Piece::lemma_spawn_spec(drawn);
    }
    if piece.collide_with(board, spawn_coords) {
        return None;  // the spawn position is blocked: the game is over
    }
    let controller = PieceController::new(config);
    Some((piece, spawn_coords, controller))
}

} // verus!

