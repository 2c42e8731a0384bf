//! Piece kinds, orientations, tetromino shapes with their wall-kick tables,
//! and the falling piece with its movement, rotation and collision tests.

use crate::board::Board;
use crate::board::Cell;
use crate::board::CellKind;
use vstd::prelude::*;

verus! {

/// The seven standard tetromino kinds.
#[derive(Copy, Clone, PartialEq, Eq, Structural, Hash, Debug)]
pub enum PieceType {
    I,
    J,
    L,
    O,
    S,
    T,
    Z,
}

impl PieceType {
    /// Every piece type, once each, in a fixed order.
    pub fn all() -> (r: Vec<PieceType>)
        ensures
            r@ == Self::all_spec(),
    {
        let mut v: Vec<PieceType> = Vec::new();
        v.push(PieceType::I);
        v.push(PieceType::J);
        v.push(PieceType::L);
        v.push(PieceType::O);
        v.push(PieceType::S);
        v.push(PieceType::T);
        v.push(PieceType::Z);
        proof {
            assert(v@ =~= Self::all_spec());
        }
        v
    }

    /// The sequence `all` returns.
    pub open spec fn all_spec() -> Seq<PieceType> {
        seq![
            PieceType::I,
            PieceType::J,
            PieceType::L,
            PieceType::O,
            PieceType::S,
            PieceType::T,
            PieceType::Z,
        ]
    }

    /// How many piece types there are.
    pub const LEN: usize = 7;
}

/// One of the four orientations a piece can take; a quarter turn apart each.
#[derive(Copy, Clone, PartialEq, Eq, Structural, Hash, Debug)]
pub enum PieceRotation {
    R0,
    R90,
    R180,
    R270,
}

impl PieceRotation {
    /// Every orientation, once each, a quarter turn apart in order.
    pub fn all() -> (r: Vec<PieceRotation>)
        ensures
            r@ == Self::all_spec(),
    {
        let mut v: Vec<PieceRotation> = Vec::new();
        v.push(PieceRotation::R0);
        v.push(PieceRotation::R90);
        v.push(PieceRotation::R180);
        v.push(PieceRotation::R270);
        proof {
            assert(v@ =~= Self::all_spec());
        }
        v
    }

    /// The sequence `all` returns.
    pub open spec fn all_spec() -> Seq<PieceRotation> {
        seq![PieceRotation::R0, PieceRotation::R90, PieceRotation::R180, PieceRotation::R270]
    }

    /// The number of quarter turns from `R0`.
    pub open spec fn idx(self) -> int {
        match self {
            PieceRotation::R0 => 0,
            PieceRotation::R90 => 1,
            PieceRotation::R180 => 2,
            PieceRotation::R270 => 3,
        }
    }

    /// The orientation `i` quarter turns from `R0`, for `0 <= i < 4`.
    pub open spec fn from_idx(i: int) -> PieceRotation {
        if i == 0 {
            PieceRotation::R0
        } else if i == 1 {
            PieceRotation::R90
        } else if i == 2 {
            PieceRotation::R180
        } else {
            PieceRotation::R270
        }
    }

    /// The number of quarter turns from `R0`, as a machine integer.
    pub fn index(self) -> (r: u8)
        ensures
            r as int == self.idx(),
    {
        match self {
            PieceRotation::R0 => 0,
            PieceRotation::R90 => 1,
            PieceRotation::R180 => 2,
            PieceRotation::R270 => 3,
        }
    }

    /// Composition of two rotations: quarter-turn counts added modulo four.
    pub open spec fn plus_spec(self, other: PieceRotation) -> PieceRotation {
        PieceRotation::from_idx((self.idx() + other.idx()) % 4)
    }

    /// Rotate `self` further by `other` (addition in the cyclic group of
    /// quarter turns).
    pub fn plus(self, other: PieceRotation) -> (r: PieceRotation)
        ensures
            r == self.plus_spec(other),
    {
        let sum: u8 = (self.index() + other.index()) % 4;
        match sum {
            0 => PieceRotation::R0,
            1 => PieceRotation::R90,
            2 => PieceRotation::R180,
            _ => PieceRotation::R270,
        }
    }
}

/// A direction a falling piece can be nudged in.
#[derive(Copy, Clone, PartialEq, Eq, Structural, Hash, Debug)]
pub enum MoveDirection {
    Left,
    Right,
    Down,
}

/// The four cells a piece of the given type occupies on its local board in
/// spawn orientation, anchored bottom-left.
pub open spec fn base_shape(t: PieceType) -> Seq<(int, int)> {
    match t {
        PieceType::I => seq![(0, 2), (1, 2), (2, 2), (3, 2)],
        PieceType::J => seq![(0, 1), (1, 1), (2, 1), (0, 2)],
        PieceType::L => seq![(0, 1), (1, 1), (2, 1), (2, 2)],
        PieceType::O => seq![(1, 1), (1, 2), (2, 1), (2, 2)],
        PieceType::S => seq![(0, 1), (1, 1), (1, 2), (2, 2)],
        PieceType::T => seq![(0, 1), (1, 1), (1, 2), (2, 1)],
        PieceType::Z => seq![(0, 2), (1, 2), (1, 1), (2, 1)],
    }
}

/// The four cells of the compact spawn-shape picture used for preview and
/// hold displays, anchored at the origin.
pub open spec fn base_avatar_shape(t: PieceType) -> Seq<(int, int)> {
    match t {
        PieceType::I => seq![(0, 0), (1, 0), (2, 0), (3, 0)],
        PieceType::J => seq![(0, 0), (1, 0), (2, 0), (0, 1)],
        PieceType::L => seq![(0, 0), (1, 0), (2, 0), (2, 1)],
        PieceType::O => seq![(0, 0), (1, 0), (0, 1), (1, 1)],
        PieceType::S => seq![(0, 0), (1, 0), (1, 1), (2, 1)],
        PieceType::T => seq![(0, 0), (1, 0), (2, 0), (1, 1)],
        PieceType::Z => seq![(0, 1), (1, 1), (1, 0), (2, 0)],
    }
}

/// A point rotated a quarter turn clockwise `n` times within a board of the
/// given height: each turn maps `(x, y)` to `(y, height - 1 - x)`.
pub open spec fn rotate_point(height: int, p: (int, int), n: nat) -> (int, int)
    decreases n,
{
    if n == 0 {
        p
    } else {
        rotate_point(height, (p.1, height - 1 - p.0), (n - 1) as nat)
    }
}

/// The size `(width, height)` of a piece's local board.
pub open spec fn spec_board_size(t: PieceType) -> (int, int) {
    match t {
        PieceType::I => (4, 4),
        PieceType::O => (4, 3),
        _ => (3, 3),
    }
}

/// The four cells a piece occupies on its local board in the given
/// orientation. The O piece looks the same in every orientation, so its
/// rotation is skipped outright.
pub open spec fn shape_cells(t: PieceType, r: PieceRotation) -> Seq<(int, int)> {
    if t == PieceType::O {
        base_shape(t)
    } else {
        base_shape(t).map_values(
            |p: (int, int)| rotate_point(spec_board_size(t).1, p, r.idx() as nat),
        )
    }
}

/// The integer points of a vector of machine-size coordinate pairs.
pub open spec fn points_of(a: Seq<(isize, isize)>) -> Seq<(int, int)> {
    a.map_values(|p: (isize, isize)| (p.0 as int, p.1 as int))
}

/// A quarter turn maps the square `[0, h) x [0, h)` onto itself.
pub proof fn lemma_rotate_point_in_square(h: int, p: (int, int), n: nat)
    requires
        0 <= p.0 < h,
        0 <= p.1 < h,
    ensures
        0 <= rotate_point(h, p, n).0 < h,
        0 <= rotate_point(h, p, n).1 < h,
    decreases n,
{
    if n > 0 {
        lemma_rotate_point_in_square(h, (p.1, h - 1 - p.0), (n - 1) as nat);
    }
}

/// Rotation moves distinct points to distinct points.
pub proof fn lemma_rotate_point_injective(h: int, p: (int, int), q: (int, int), n: nat)
    requires
        p != q,
    ensures
        rotate_point(h, p, n) != rotate_point(h, q, n),
    decreases n,
{
    if n > 0 {
        lemma_rotate_point_injective(h, (p.1, h - 1 - p.0), (q.1, h - 1 - q.0), (n - 1) as nat);
    }
}

/// Every base shape lies within its local board and names four distinct
/// cells.
pub proof fn lemma_base_shape_ok(t: PieceType)
    ensures
        base_shape(t).len() == 4,
        forall|i: int|
            0 <= i < 4 ==> 0 <= (#[trigger] base_shape(t)[i]).0 < spec_board_size(t).0 && 0 <= (
            base_shape(t)[i]).1 < spec_board_size(t).1,
        t != PieceType::O ==> forall|i: int|
            0 <= i < 4 ==> 0 <= (#[trigger] base_shape(t)[i]).0 < spec_board_size(t).1,
        forall|i: int, j: int| 0 <= i < j < 4 ==> base_shape(t)[i] != base_shape(t)[j],
{
}

/// A piece's shape in any orientation lies within its local board and names
/// four distinct cells.
pub proof fn lemma_shape_cells_ok(t: PieceType, r: PieceRotation)
    ensures
        shape_cells(t, r).len() == 4,
        forall|i: int|
            0 <= i < 4 ==> 0 <= (#[trigger] shape_cells(t, r)[i]).0 < spec_board_size(t).0 && 0
                <= (shape_cells(t, r)[i]).1 < spec_board_size(t).1,
        forall|i: int, j: int| 0 <= i < j < 4 ==> shape_cells(t, r)[i] != shape_cells(t, r)[j],
{
    lemma_base_shape_ok(t);
    if t != PieceType::O {
        let h = spec_board_size(t).1;
        assert(spec_board_size(t).0 == h);
        assert forall|i: int| 0 <= i < 4 implies 0 <= (#[trigger] shape_cells(t, r)[i]).0 < h && 0
            <= (shape_cells(t, r)[i]).1 < h by {
            lemma_rotate_point_in_square(h, base_shape(t)[i], r.idx() as nat);
        }
        assert forall|i: int, j: int| 0 <= i < j < 4 implies shape_cells(t, r)[i] != shape_cells(
            t,
            r,
        )[j] by {
            lemma_rotate_point_injective(h, base_shape(t)[i], base_shape(t)[j], r.idx() as nat);
        }
    }
}

/// The local board a piece of type `t` in orientation `r` stamps: its four
/// shape cells occupied (each cell recording its position), all other cells
/// untouched empty cells.
pub open spec fn piece_board_grid(t: PieceType, r: PieceRotation) -> Seq<Seq<Cell>> {
    stamped_grid(spec_board_size(t).0, spec_board_size(t).1, shape_cells(t, r), t)
}

/// Law: the O piece's local board is identical in all four orientations —
/// its rotation is skipped, so the stamped grid never depends on it.
pub proof fn lemma_o_piece_board_constant(r1: PieceRotation, r2: PieceRotation)
    ensures
        piece_board_grid(PieceType::O, r1) == piece_board_grid(PieceType::O, r2),
{
    assert(shape_cells(PieceType::O, r1) == shape_cells(PieceType::O, r2));
}

/// A falling piece: a piece type together with its current orientation. Its
/// occupied-cell footprint is always recomputed from the static shape
/// tables; nothing else is stored.
#[derive(Copy, Clone, Debug)]
pub struct Piece {
    piece_type: PieceType,
    rotation: PieceRotation,
}

impl Piece {
    /// The kind of tetromino.
    pub closed spec fn spec_piece_type(&self) -> PieceType {
        self.piece_type
    }

    /// The current orientation.
    pub closed spec fn spec_rotation(&self) -> PieceRotation {
        self.rotation
    }

    /// A piece of the given type in spawn orientation.
    pub fn new(piece_type: PieceType) -> (r: Piece)
        ensures
            r.spec_piece_type() == piece_type,
            r.spec_rotation() == PieceRotation::R0,
            r == Piece::spawn_spec(piece_type),
    {
        Piece { piece_type, rotation: PieceRotation::R0 }
    }

    /// The current orientation.
    pub fn rotation(&self) -> (r: PieceRotation)
        ensures
            r == self.spec_rotation(),
    {
        self.rotation
    }

    /// The kind of tetromino.
    pub fn piece_type(&self) -> (r: PieceType)
        ensures
            r == self.spec_piece_type(),
    {
        self.piece_type
    }

    /// Advance the orientation a quarter turn clockwise.
    pub fn rotate(&mut self)
        ensures
            final(self).spec_piece_type() == old(self).spec_piece_type(),
            final(self).spec_rotation() == old(self).spec_rotation().plus_spec(PieceRotation::R90),
    {
        self.rotation = self.rotation.plus(PieceRotation::R90);
    }

    /// Advance the orientation by `n` quarter turns.
    pub fn rotate_n(&mut self, n: u8)
        ensures
            final(self).spec_piece_type() == old(self).spec_piece_type(),
            final(self).spec_rotation() == PieceRotation::from_idx(
                (old(self).spec_rotation().idx() + n as int) % 4,
            ),
    {
        let n = n % 4;
        let mut i: u8 = 0;
        while i < n
            invariant
                i <= n,
                n < 4,
                self.spec_piece_type() == old(self).spec_piece_type(),
                self.spec_rotation() == PieceRotation::from_idx(
                    (old(self).spec_rotation().idx() + i as int) % 4,
                ),
            decreases n - i,
        {
            self.rotate();
            i += 1;
        }
    }

    /// Set the orientation outright.
    pub fn rotate_to(&mut self, rotation: PieceRotation)
        ensures
            final(self).spec_piece_type() == old(self).spec_piece_type(),
            final(self).spec_rotation() == rotation,
            *final(self) == old(self).with_rotation(rotation),
    {
        self.rotation = rotation;
    }

    /// The size `(width, height)` of this piece's local board.
    pub fn board_size(&self) -> (r: (usize, usize))
        ensures
            (r.0 as int, r.1 as int) == spec_board_size(self.spec_piece_type()),
    {
        match self.piece_type {
            PieceType::I => (4, 4),
            PieceType::O => (4, 3),
            _ => (3, 3),
        }
    }

    /// The spawn-orientation shape of a piece type.
    fn get_shape(piece_type: PieceType) -> (r: Vec<(isize, isize)>)
        ensures
            points_of(r@) == base_shape(piece_type),
            r@.len() == 4,
    {
        let mut v: Vec<(isize, isize)> = Vec::new();
        match piece_type {
            PieceType::I => {
                v.push((0, 2));
                v.push((1, 2));
                v.push((2, 2));
                v.push((3, 2));
            },
            PieceType::J => {
                v.push((0, 1));
                v.push((1, 1));
                v.push((2, 1));
                v.push((0, 2));
            },
            PieceType::L => {
                v.push((0, 1));
                v.push((1, 1));
                v.push((2, 1));
                v.push((2, 2));
            },
            PieceType::O => {
                v.push((1, 1));
                v.push((1, 2));
                v.push((2, 1));
                v.push((2, 2));
            },
            PieceType::S => {
                v.push((0, 1));
                v.push((1, 1));
                v.push((1, 2));
                v.push((2, 2));
            },
            PieceType::T => {
                v.push((0, 1));
                v.push((1, 1));
                v.push((1, 2));
                v.push((2, 1));
            },
            PieceType::Z => {
                v.push((0, 2));
                v.push((1, 2));
                v.push((1, 1));
                v.push((2, 1));
            },
        }
        proof {
            assert(points_of(v@) =~= base_shape(piece_type));
        }
        v
    }

    /// The compact spawn-shape picture of a piece type.
    fn get_avatar_shape(piece_type: PieceType) -> (r: Vec<(isize, isize)>)
        ensures
            points_of(r@) == base_avatar_shape(piece_type),
            r@.len() == 4,
    {
        let mut v: Vec<(isize, isize)> = Vec::new();
        match piece_type {
            PieceType::I => {
                v.push((0, 0));
                v.push((1, 0));
                v.push((2, 0));
                v.push((3, 0));
            },
            PieceType::J => {
                v.push((0, 0));
                v.push((1, 0));
                v.push((2, 0));
                v.push((0, 1));
            },
            PieceType::L => {
                v.push((0, 0));
                v.push((1, 0));
                v.push((2, 0));
                v.push((2, 1));
            },
            PieceType::O => {
                v.push((0, 0));
                v.push((1, 0));
                v.push((0, 1));
                v.push((1, 1));
            },
            PieceType::S => {
                v.push((0, 0));
                v.push((1, 0));
                v.push((1, 1));
                v.push((2, 1));
            },
            PieceType::T => {
                v.push((0, 0));
                v.push((1, 0));
                v.push((2, 0));
                v.push((1, 1));
            },
            PieceType::Z => {
                v.push((0, 1));
                v.push((1, 1));
                v.push((1, 0));
                v.push((2, 0));
            },
        }
        proof {
            assert(points_of(v@) =~= base_avatar_shape(piece_type));
        }
        v
    }

    /// Rotate every point of a shape a quarter turn clockwise, `n` times,
    /// within a local board of the given height.
    fn rotate_shape(height: usize, shape: &mut Vec<(isize, isize)>, n: u8)
        requires
            height <= 4,
            forall|i: int|
                0 <= i < old(shape)@.len() ==> 0 <= (#[trigger] old(shape)@[i]).0 < height && 0 <= (
                old(shape)@[i]).1 < height,
        ensures
            final(shape)@.len() == old(shape)@.len(),
            points_of(final(shape)@) == points_of(old(shape)@).map_values(
                |p: (int, int)| rotate_point(height as int, p, n as nat),
            ),
    {
        let mut k: u8 = 0;
        while k < n
            invariant
                k <= n,
                height <= 4,
                shape@.len() == old(shape)@.len(),
                forall|i: int|
                    0 <= i < shape@.len() ==> 0 <= (#[trigger] shape@[i]).0 < height && 0 <= (
                    shape@[i]).1 < height,
                points_of(shape@) =~= points_of(old(shape)@).map_values(
                    |p: (int, int)| rotate_point(height as int, p, k as nat),
                ),
            decreases n - k,
        {
            let ghost pre = shape@;
            let mut i: usize = 0;
            while i < shape.len()
                invariant
                    height <= 4,
                    shape@.len() == pre.len(),
                    i <= shape@.len(),
                    forall|j: int|
                        0 <= j < pre.len() ==> 0 <= (#[trigger] pre[j]).0 < height && 0 <= (
                        pre[j]).1 < height,
                    forall|j: int|
                        0 <= j < shape@.len() ==> 0 <= (#[trigger] shape@[j]).0 < height && 0 <= (
                        shape@[j]).1 < height,
                    forall|j: int| i <= j < pre.len() ==> (#[trigger] shape@[j]) == pre[j],
                    forall|j: int|
                        0 <= j < i ==> (#[trigger] shape@[j]).0 == pre[j].1 && shape@[j].1 as int
                            == height - 1 - pre[j].0 as int,
                decreases shape@.len() - i,
            {
                let (x, y) = shape[i];
                shape.set(i, (y, (height - 1) as isize - x));
                i += 1;
            }
            proof {
                let h = height as int;
                let orig = points_of(old(shape)@);
                assert forall|j: int| 0 <= j < orig.len() implies points_of(shape@)[j]
                    == rotate_point(h, orig[j], (k + 1) as nat) by {
                    lemma_rotate_point_unroll(h, orig[j], k as nat);
                    assert(points_of(pre)[j] == rotate_point(h, orig[j], k as nat));
                    assert(points_of(shape@)[j] == (
                        (pre[j].1 as int),
                        h - 1 - pre[j].0 as int,
                    ));
                }
                assert(points_of(shape@) =~= orig.map_values(
                    |p: (int, int)| rotate_point(h, p, (k + 1) as nat),
                ));
            }
            k += 1;
        }
    }
}

/// A `width` by `height` grid with the cells at `pts` occupied by pieces of
/// type `t` (each such cell recording its position) and every other cell an
/// untouched empty cell.
pub open spec fn stamped_grid(width: int, height: int, pts: Seq<(int, int)>, t: PieceType) -> Seq<
    Seq<Cell>,
> {
    Seq::new(
        height as nat,
        |y: int|
            Seq::new(
                width as nat,
                |x: int|
                    if pts.contains((x, y)) {
                        Cell { x: x as isize, y: y as isize, cell_kind: CellKind::Occupied(t) }
                    } else {
                        Cell { x: 0, y: 0, cell_kind: CellKind::Empty }
                    },
            ),
    )
}

/// Stamp four distinct in-range cells onto a fresh all-empty board.
fn stamp_shape(board: &mut Board, shape: &Vec<(isize, isize)>, piece_type: PieceType)
    requires
        old(board).wf(),
        old(board).total_rows() == old(board).spec_height(),
        shape@.len() == 4,
        forall|j: int|
            0 <= j < 4 ==> 0 <= (#[trigger] points_of(shape@)[j]).0 < old(board).spec_width() && 0
                <= (points_of(shape@)[j]).1 < old(board).spec_height(),
        forall|j: int, k: int| 0 <= j < k < 4 ==> points_of(shape@)[j] != points_of(shape@)[k],
        forall|y: int, x: int|
            0 <= y < old(board).total_rows() && 0 <= x < old(board).spec_width()
                ==> #[trigger] old(board).grid()[y][x] == (Cell {
                x: 0,
                y: 0,
                cell_kind: CellKind::Empty,
            }),
    ensures
        final(board).wf(),
        final(board).spec_width() == old(board).spec_width(),
        final(board).spec_height() == old(board).spec_height(),
        final(board).total_rows() == old(board).total_rows(),
        final(board).grid() == stamped_grid(
            old(board).spec_width(),
            old(board).spec_height(),
            points_of(shape@),
            piece_type,
        ),
        final(board).occupied_cells().len() == 4,
{
    let ghost t = piece_type;
    let ghost pts = points_of(shape@);
    proof {
        crate::board::lemma_occ_of_all_empty(board.grid());
    }
    let mut i: usize = 0;
    while i < shape.len()
        invariant
            t == piece_type,
            pts == points_of(shape@),
            board.wf(),
            board.spec_width() == old(board).spec_width(),
            board.spec_height() == old(board).spec_height(),
            board.total_rows() == board.spec_height(),
            shape@.len() == 4,
            i <= 4,
            forall|j: int|
                0 <= j < 4 ==> 0 <= (#[trigger] pts[j]).0 < board.spec_width() && 0 <= (
                pts[j]).1 < board.spec_height(),
            forall|j: int, k: int| 0 <= j < k < 4 ==> pts[j] != pts[k],
            board.occupied_cells().len() == i,
            forall|y: int, x: int|
                0 <= y < board.total_rows() && 0 <= x < board.spec_width()
                    ==> #[trigger] board.grid()[y][x] == if pts.take(i as int).contains(
                    (x, y),
                ) {
                    Cell { x: x as isize, y: y as isize, cell_kind: CellKind::Occupied(t) }
                } else {
                    Cell { x: 0, y: 0, cell_kind: CellKind::Empty }
                },
        decreases shape@.len() - i,
    {
        let (x, y) = shape[i];
        let ghost pre = board.grid();
        proof {
            assert(pts[i as int] == (x as int, y as int));
            if pts.take(i as int).contains((x as int, y as int)) {
                let w = choose|j: int|
                    0 <= j < i && #[trigger] pts.take(i as int)[j] == (x as int, y as int);
                assert(pts[w] == pts[i as int]);
                assert(false);
            }
            assert(pre[y as int][x as int] == (Cell {
                x: 0,
                y: 0,
                cell_kind: CellKind::Empty,
            }));
        }
        board.set(x, y, CellKind::Occupied(piece_type));
        proof {
            assert(pre[y as int].len() == board.spec_width());
            crate::board::lemma_occ_of_update_add(
                pre,
                y as int,
                x as int,
                (Cell { x, y, cell_kind: CellKind::Occupied(t) }),
            );
            assert(pts.take(i + 1) =~= pts.take(i as int).push(pts[i as int]));
            assert forall|yy: int, xx: int|
                0 <= yy < board.total_rows() && 0 <= xx
                    < board.spec_width() implies #[trigger] board.grid()[yy][xx] == (
            if pts.take(i + 1).contains((xx, yy)) {
                Cell { x: xx as isize, y: yy as isize, cell_kind: CellKind::Occupied(t) }
            } else {
                Cell { x: 0, y: 0, cell_kind: CellKind::Empty }
            }) by {
                if (xx, yy) == (x as int, y as int) {
                    assert(pts.take(i + 1).contains((xx, yy))) by {
                        assert(pts.take(i + 1)[i as int] == (x as int, y as int));
                    }
                } else {
                    assert(board.grid()[yy][xx] == pre[yy][xx]);
                    assert(pts.take(i + 1).contains((xx, yy)) == pts.take(
                        i as int,
                    ).contains((xx, yy))) by {
                        if pts.take(i + 1).contains((xx, yy)) {
                            let w = choose|j: int|
                                0 <= j < i + 1 && #[trigger] pts.take(i + 1)[j] == (xx, yy);
                            if w < i {
                                assert(pts.take(i as int)[w] == (xx, yy));
                            }
                        }
                        if pts.take(i as int).contains((xx, yy)) {
                            let w = choose|j: int|
                                0 <= j < i && #[trigger] pts.take(i as int)[j] == (xx, yy);
                            assert(pts.take(i + 1)[w] == (xx, yy));
                        }
                    }
                }
            }
        }
        i += 1;
    }
    proof {
        assert(pts.take(4) =~= pts);
        assert(board.grid() =~~= stamped_grid(
            old(board).spec_width(),
            old(board).spec_height(),
            pts,
            t,
        ));
    }
}

impl Piece {
    /// The four cells the piece occupies on its local board, in its current
    /// orientation.
    pub fn shape_points(&self) -> (r: Vec<(isize, isize)>)
        ensures
            points_of(r@) == shape_cells(self.spec_piece_type(), self.spec_rotation()),
            r@.len() == 4,
    {
        let mut shape = Self::get_shape(self.piece_type);
        let n = self.rotation.index();
        proof {
            lemma_base_shape_ok(self.piece_type);
        }
        if !matches!(self.piece_type, PieceType::O) {
            let height: usize = match self.piece_type {
                PieceType::I => 4,
                _ => 3,
            };
            Self::rotate_shape(height, &mut shape, n);
        }
        proof {
            assert(points_of(shape@) =~= shape_cells(self.spec_piece_type(), self.spec_rotation()));
        }
        shape
    }

    /// A fresh local board with this piece's four cells stamped in its
    /// current orientation; always exactly four occupied cells (the
    /// tetromino invariant).
    pub fn board(&self) -> (r: Board)
        ensures
            r.wf(),
            r.spec_width() == spec_board_size(self.spec_piece_type()).0,
            r.spec_height() == spec_board_size(self.spec_piece_type()).1,
            r.total_rows() == r.spec_height(),
            r.grid() == piece_board_grid(self.spec_piece_type(), self.spec_rotation()),
            r.occupied_cells().len() == 4,
    {
        let ghost t = self.piece_type;
        let ghost rot = self.rotation;
        let (width, height) = self.board_size();
        let mut board = Board::new(width, height);
        let shape = self.shape_points();
        proof {
            lemma_shape_cells_ok(t, rot);
        }
        stamp_shape(&mut board, &shape, self.piece_type);
        board
    }

    /// The size of the compact spawn-shape picture: the bounding box of the
    /// piece's four cells in spawn orientation.
    pub open spec fn spec_avatar_size(t: PieceType) -> (int, int) {
        match t {
            PieceType::I => (4, 1),
            PieceType::O => (2, 2),
            _ => (3, 2),
        }
    }

    /// A compact, margin-less board holding the piece's fixed spawn shape,
    /// sized exactly to its bounding box; used for preview and hold
    /// displays, never for collision.
    pub fn avatar_board(&self) -> (r: Board)
        ensures
            r.wf(),
            r.spec_width() == Self::spec_avatar_size(self.spec_piece_type()).0,
            r.spec_height() == Self::spec_avatar_size(self.spec_piece_type()).1,
            r.total_rows() == r.spec_height(),
            r.grid() == stamped_grid(
                Self::spec_avatar_size(self.spec_piece_type()).0,
                Self::spec_avatar_size(self.spec_piece_type()).1,
                base_avatar_shape(self.spec_piece_type()),
                self.spec_piece_type(),
            ),
            r.occupied_cells().len() == 4,
    {
        let ghost t = self.piece_type;
        let shape = Self::get_avatar_shape(self.piece_type);
        // the bounding box of the shape: the largest x and y, plus one
        let mut max_x: isize = 0;
        let mut max_y: isize = 0;
        let mut i: usize = 0;
        while i < shape.len()
            invariant
                t == self.piece_type,
                points_of(shape@) == base_avatar_shape(t),
                shape@.len() == 4,
                i <= 4,
                0 <= max_x <= 4,
                0 <= max_y <= 4,
                forall|j: int|
                    0 <= j < i ==> (#[trigger] points_of(shape@)[j]).0 <= max_x && (
                    points_of(shape@)[j]).1 <= max_y,
                i > 0 ==> (exists|j: int| 0 <= j < i && (#[trigger] points_of(shape@)[j]).0 == max_x)
                    && (exists|j: int| 0 <= j < i && (#[trigger] points_of(shape@)[j]).1 == max_y),
                i == 0 ==> max_x == 0 && max_y == 0,
            decreases shape@.len() - i,
        {
            let (x, y) = shape[i];
            proof {
                assert(points_of(shape@)[i as int] == (x as int, y as int));
                assert(0 <= x as int <= 3 && 0 <= y as int <= 3);
            }
            if x > max_x {
                max_x = x;
            }
            if y > max_y {
                max_y = y;
            }
            i += 1;
        }
        proof {
            assert((max_x as int, max_y as int) == (
                Self::spec_avatar_size(t).0 - 1,
                Self::spec_avatar_size(t).1 - 1,
            ));
        }
        let mut board = Board::new(max_x as usize + 1, max_y as usize + 1);
        proof {
            lemma_avatar_shape_ok(t);
        }
        stamp_shape(&mut board, &shape, self.piece_type);
        board
    }
}

/// Every compact spawn shape lies within its bounding box and names four
/// distinct cells.
pub proof fn lemma_avatar_shape_ok(t: PieceType)
    ensures
        base_avatar_shape(t).len() == 4,
        forall|i: int|
            0 <= i < 4 ==> 0 <= (#[trigger] base_avatar_shape(t)[i]).0 < Piece::spec_avatar_size(
                t,
            ).0 && 0 <= (base_avatar_shape(t)[i]).1 < Piece::spec_avatar_size(t).1,
        forall|i: int, j: int| 0 <= i < j < 4 ==> base_avatar_shape(t)[i] != base_avatar_shape(t)[j],
{
}

/// True iff the offset pair lies at least `m` away from the ends of the
/// machine integer range, so that coordinate arithmetic cannot overflow.
pub open spec fn offset_within(off: (int, int), m: int) -> bool {
    &&& isize::MIN + m <= off.0 <= isize::MAX - m
    &&& isize::MIN + m <= off.1 <= isize::MAX - m
}

/// The offset one step in the given direction: left, right, or down.
pub open spec fn moved_offset(off: (int, int), direction: MoveDirection) -> (int, int) {
    match direction {
        MoveDirection::Left => (off.0 - 1, off.1),
        MoveDirection::Right => (off.0 + 1, off.1),
        MoveDirection::Down => (off.0, off.1 - 1),
    }
}

/// True iff `to` is one quarter turn away from `from`, in either direction:
/// the eight legal rotation transitions.
pub open spec fn is_quarter_turn(from: PieceRotation, to: PieceRotation) -> bool {
    to == from.plus_spec(PieceRotation::R90) || to == from.plus_spec(PieceRotation::R270)
}

/// The five wall-kick offsets tried, in order, for a legal rotation
/// transition: one table for the I piece, one for all other pieces.
pub open spec fn kick_table_row(t: PieceType, from: PieceRotation, to: PieceRotation) -> Seq<
    (int, int),
> {
    if t == PieceType::I {
        match (from, to) {
            (PieceRotation::R0, PieceRotation::R90) => seq![(0, 0), (-2, 0), (1, 0), (-2, -1), (1, 2)],
            (PieceRotation::R90, PieceRotation::R0) => seq![(0, 0), (2, 0), (-1, 0), (2, 1), (-1, -2)],
            (PieceRotation::R90, PieceRotation::R180) => seq![(0, 0), (-1, 0), (2, 0), (-1, 2), (2, -1)],
            (PieceRotation::R180, PieceRotation::R90) => seq![(0, 0), (1, 0), (-2, 0), (1, -2), (-2, 1)],
            (PieceRotation::R180, PieceRotation::R270) => seq![(0, 0), (2, 0), (-1, 0), (2, 1), (-1, -2)],
            (PieceRotation::R270, PieceRotation::R180) => seq![(0, 0), (-2, 0), (1, 0), (-2, -1), (1, 2)],
            (PieceRotation::R270, PieceRotation::R0) => seq![(0, 0), (1, 0), (-2, 0), (1, -2), (-2, 1)],
            (PieceRotation::R0, PieceRotation::R270) => seq![(0, 0), (-1, 0), (2, 0), (-1, 2), (2, -1)],
            _ => Seq::empty(),
        }
    } else {
        match (from, to) {
            (PieceRotation::R0, PieceRotation::R90) => seq![(0, 0), (-1, 0), (-1, 1), (0, -2), (-1, -2)],
            (PieceRotation::R90, PieceRotation::R0) => seq![(0, 0), (1, 0), (1, -1), (0, 2), (1, 2)],
            (PieceRotation::R90, PieceRotation::R180) => seq![(0, 0), (1, 0), (1, -1), (0, 2), (1, 2)],
            (PieceRotation::R180, PieceRotation::R90) => seq![(0, 0), (-1, 0), (-1, 1), (0, -2), (-1, -2)],
            (PieceRotation::R180, PieceRotation::R270) => seq![(0, 0), (1, 0), (1, 1), (0, -2), (1, -2)],
            (PieceRotation::R270, PieceRotation::R180) => seq![(0, 0), (-1, 0), (-1, -1), (0, 2), (-1, 2)],
            (PieceRotation::R270, PieceRotation::R0) => seq![(0, 0), (-1, 0), (-1, -1), (0, 2), (-1, 2)],
            (PieceRotation::R0, PieceRotation::R270) => seq![(0, 0), (1, 0), (1, 1), (0, -2), (1, -2)],
            _ => Seq::empty(),
        }
    }
}

impl Piece {
    /// This piece turned to the given orientation.
    pub closed spec fn with_rotation(self, rotation: PieceRotation) -> Piece {
        Piece { piece_type: self.piece_type, rotation }
    }

    /// What turning a piece to an orientation means for its parts.
    pub proof fn lemma_with_rotation(self, rotation: PieceRotation)
        ensures
            self.with_rotation(rotation).spec_piece_type() == self.spec_piece_type(),
            self.with_rotation(rotation).spec_rotation() == rotation,
    {
    }

    /// True iff the piece, translated by `off`, overlaps a cell of `board`
    /// that is not empty — another block, a side wall, or the floor.
    pub open spec fn collides_at(self, board: Board, off: (int, int)) -> bool {
        exists|i: int|
            0 <= i < shape_cells(self.spec_piece_type(), self.spec_rotation()).len() && !(
            board.kind_at(
                (#[trigger] shape_cells(self.spec_piece_type(), self.spec_rotation())[i]).0 + off.0,
                (shape_cells(self.spec_piece_type(), self.spec_rotation())[i]).1 + off.1,
            ) is Empty)
    }

    /// Collision test: true iff any of the piece's cells, translated by
    /// `offset`, lands on a non-empty cell of the board (off-board sideways
    /// or below always collides).
    pub fn collide_with(&self, board: &Board, offset: (isize, isize)) -> (r: bool)
        requires
            board.wf(),
            offset_within((offset.0 as int, offset.1 as int), 4),
        ensures
            r == self.collides_at(*board, (offset.0 as int, offset.1 as int)),
    {
        let ghost t = self.piece_type;
        let ghost rot = self.rotation;
        let ghost off = (offset.0 as int, offset.1 as int);
        let shape = self.shape_points();
        let ghost pts = shape_cells(t, rot);
        proof {
            lemma_shape_cells_ok(t, rot);
        }
        let mut i: usize = 0;
        while i < shape.len()
            invariant
                t == self.piece_type,
                rot == self.rotation,
                off == (offset.0 as int, offset.1 as int),
                board.wf(),
                offset_within(off, 4),
                shape@.len() == 4,
                i <= 4,
                pts == points_of(shape@),
                pts == shape_cells(t, rot),
                forall|j: int| 0 <= j < 4 ==> 0 <= (#[trigger] pts[j]).0 < 4 && 0 <= (pts[j]).1 < 4,
                forall|j: int|
                    0 <= j < i ==> board.kind_at(
                        (#[trigger] pts[j]).0 + off.0,
                        (pts[j]).1 + off.1,
                    ) is Empty,
            decreases shape@.len() - i,
        {
            let (x, y) = shape[i];
            proof {
                assert(pts[i as int] == (x as int, y as int));
            }
            let kind = board.get_cell_kind(x + offset.0, y + offset.1);
            if !kind.is_none() {
                proof {
                    assert(!(board.kind_at(pts[i as int].0 + off.0, pts[i as int].1 + off.1)
                        is Empty));
                }
                return true;
            }
            i += 1;
        }
        false
    }

    /// Try to move one step in `direction`: the stepped offset if the piece
    /// does not collide there, and a refusal if it does. The piece itself is
    /// untouched; the caller applies the returned offset.
    pub fn try_move(&self, board: &Board, offset: (isize, isize), direction: MoveDirection) -> (r:
        Result<(isize, isize), ()>)
        requires
            board.wf(),
            offset_within((offset.0 as int, offset.1 as int), 5),
        ensures
            ({
                let noff = moved_offset((offset.0 as int, offset.1 as int), direction);
                match r {
                    Ok(p) => (p.0 as int, p.1 as int) == noff && !self.collides_at(*board, noff),
                    Err(_) => self.collides_at(*board, noff),
                }
            }),
    {
        let (x_offset, y_offset) = offset;
        let (x_offset, y_offset) = match direction {
            MoveDirection::Left => (x_offset - 1, y_offset),
            MoveDirection::Right => (x_offset + 1, y_offset),
            MoveDirection::Down => (x_offset, y_offset - 1),
        };

        if self.collide_with(board, (x_offset, y_offset)) {
            Err(())
        } else {
            Ok((x_offset, y_offset))
        }
    }

    /// Try an in-place rotation, with no kick: the target orientation if the
    /// piece, so turned, does not collide at `offset`, and a refusal if it
    /// does.
    pub fn try_rotate(&self, board: &Board, offset: (isize, isize), rotation: PieceRotation) -> (r:
        Result<PieceRotation, ()>)
        requires
            board.wf(),
            offset_within((offset.0 as int, offset.1 as int), 4),
        ensures
            ({
                let turned = self.with_rotation(rotation);
                match r {
                    Ok(q) => q == rotation && !turned.collides_at(
                        *board,
                        (offset.0 as int, offset.1 as int),
                    ),
                    Err(_) => turned.collides_at(*board, (offset.0 as int, offset.1 as int)),
                }
            }),
    {
        let (x_offset, y_offset) = offset;
        let mut new_piece = self.clone();
        new_piece.rotate_to(rotation);
        proof {
            assert(new_piece == self.with_rotation(rotation));
        }
        if new_piece.collide_with(board, (x_offset, y_offset)) {
            Err(())
        } else {
            Ok(new_piece.rotation)
        }
    }

    /// The five wall-kick offsets for this piece's table and the given
    /// transition, each component within two cells.
    fn kicks_for(piece_type: PieceType, from: PieceRotation, to: PieceRotation) -> (r: Vec<
        (isize, isize),
    >)
        requires
            is_quarter_turn(from, to),
        ensures
            points_of(r@) == kick_table_row(piece_type, from, to),
            r@.len() == 5,
            forall|j: int|
                0 <= j < 5 ==> -2 <= (#[trigger] points_of(r@)[j]).0 <= 2 && -2 <= (
                points_of(r@)[j]).1 <= 2,
    {
        let mut v: Vec<(isize, isize)> = Vec::new();
        let is_i = matches!(piece_type, PieceType::I);
        match (from, to) {
            (PieceRotation::R0, PieceRotation::R90) => {
                if is_i {
                    v.push((0, 0));
                    v.push((-2, 0));
                    v.push((1, 0));
                    v.push((-2, -1));
                    v.push((1, 2));
                } else {
                    v.push((0, 0));
                    v.push((-1, 0));
                    v.push((-1, 1));
                    v.push((0, -2));
                    v.push((-1, -2));
                }
            },
            (PieceRotation::R90, PieceRotation::R0) => {
                if is_i {
                    v.push((0, 0));
                    v.push((2, 0));
                    v.push((-1, 0));
                    v.push((2, 1));
                    v.push((-1, -2));
                } else {
                    v.push((0, 0));
                    v.push((1, 0));
                    v.push((1, -1));
                    v.push((0, 2));
                    v.push((1, 2));
                }
            },
            (PieceRotation::R90, PieceRotation::R180) => {
                if is_i {
                    v.push((0, 0));
                    v.push((-1, 0));
                    v.push((2, 0));
                    v.push((-1, 2));
                    v.push((2, -1));
                } else {
                    v.push((0, 0));
                    v.push((1, 0));
                    v.push((1, -1));
                    v.push((0, 2));
                    v.push((1, 2));
                }
            },
            (PieceRotation::R180, PieceRotation::R90) => {
                if is_i {
                    v.push((0, 0));
                    v.push((1, 0));
                    v.push((-2, 0));
                    v.push((1, -2));
                    v.push((-2, 1));
                } else {
                    v.push((0, 0));
                    v.push((-1, 0));
                    v.push((-1, 1));
                    v.push((0, -2));
                    v.push((-1, -2));
                }
            },
            (PieceRotation::R180, PieceRotation::R270) => {
                if is_i {
                    v.push((0, 0));
                    v.push((2, 0));
                    v.push((-1, 0));
                    v.push((2, 1));
                    v.push((-1, -2));
                } else {
                    v.push((0, 0));
                    v.push((1, 0));
                    v.push((1, 1));
                    v.push((0, -2));
                    v.push((1, -2));
                }
            },
            (PieceRotation::R270, PieceRotation::R180) => {
                if is_i {
                    v.push((0, 0));
                    v.push((-2, 0));
                    v.push((1, 0));
                    v.push((-2, -1));
                    v.push((1, 2));
                } else {
                    v.push((0, 0));
                    v.push((-1, 0));
                    v.push((-1, -1));
                    v.push((0, 2));
                    v.push((-1, 2));
                }
            },
            (PieceRotation::R270, PieceRotation::R0) => {
                if is_i {
                    v.push((0, 0));
                    v.push((1, 0));
                    v.push((-2, 0));
                    v.push((1, -2));
                    v.push((-2, 1));
                } else {
                    v.push((0, 0));
                    v.push((-1, 0));
                    v.push((-1, -1));
                    v.push((0, 2));
                    v.push((-1, 2));
                }
            },
            (PieceRotation::R0, PieceRotation::R270) => {
                if is_i {
                    v.push((0, 0));
                    v.push((-1, 0));
                    v.push((2, 0));
                    v.push((-1, 2));
                    v.push((2, -1));
                } else {
                    v.push((0, 0));
                    v.push((1, 0));
                    v.push((1, 1));
                    v.push((0, -2));
                    v.push((1, -2));
                }
            },
            _ => {
                // excluded by the precondition: not a quarter turn
                v.push((0, 0));
                v.push((0, 0));
                v.push((0, 0));
                v.push((0, 0));
                v.push((0, 0));
            },
        }
        proof {
            assert(points_of(v@) =~= kick_table_row(piece_type, from, to));
        }
        v
    }

    /// Try to rotate to the given orientation, testing the five wall-kick
    /// offsets of the transition's table row in order; the first offset at
    /// which the turned piece fits wins, and its index is reported (index 0
    /// means no kick was needed). The O piece never really rotates: it
    /// reports success outright, at `R0` with the offset unchanged. If all
    /// five offsets collide, the rotation is refused and the piece stays.
    /// Only the eight single-quarter-turn transitions are legal inputs.
    pub fn try_rotate_with_kicks(
        &self,
        board: &Board,
        offset: (isize, isize),
        rotation: PieceRotation,
    ) -> (r: Result<(PieceRotation, (isize, isize), usize), ()>)
        requires
            board.wf(),
            offset_within((offset.0 as int, offset.1 as int), 8),
            self.spec_piece_type() == PieceType::O || is_quarter_turn(
                self.spec_rotation(),
                rotation,
            ),
        ensures
            self.spec_piece_type() == PieceType::O ==> r == Ok::<
                (PieceRotation, (isize, isize), usize),
                (),
            >((PieceRotation::R0, offset, 0)),
            self.spec_piece_type() != PieceType::O ==> ({
                let off = (offset.0 as int, offset.1 as int);
                let row = kick_table_row(self.spec_piece_type(), self.spec_rotation(), rotation);
                let turned = self.with_rotation(rotation);
                match r {
                    Ok((rot, noff, k)) => {
                        &&& rot == rotation
                        &&& 0 <= k < 5
                        &&& (noff.0 as int, noff.1 as int) == (
                            off.0 + row[k as int].0,
                            off.1 + row[k as int].1,
                        )
                        &&& !turned.collides_at(
                            *board,
                            (off.0 + row[k as int].0, off.1 + row[k as int].1),
                        )
                        &&& forall|j: int|
                            0 <= j < k ==> turned.collides_at(
                                *board,
                                (off.0 + (#[trigger] row[j]).0, off.1 + row[j].1),
                            )
                    },
                    Err(_) => forall|j: int|
                        0 <= j < 5 ==> turned.collides_at(
                            *board,
                            (off.0 + (#[trigger] row[j]).0, off.1 + row[j].1),
                        ),
                }
            }),
    {
        if matches!(self.piece_type, PieceType::O) {
            return Ok((PieceRotation::R0, offset, 0));  // the O piece does not rotate
        }

        let ghost off = (offset.0 as int, offset.1 as int);
        let ghost row = kick_table_row(self.spec_piece_type(), self.spec_rotation(), rotation);
        let ghost turned = self.with_rotation(rotation);
        let kicks = Self::kicks_for(self.piece_type, self.rotation, rotation);

        let mut set_idx: usize = 0;
        while set_idx < kicks.len()
            invariant
                self.spec_piece_type() != PieceType::O,
                is_quarter_turn(self.spec_rotation(), rotation),
                board.wf(),
                offset_within(off, 8),
                off == (offset.0 as int, offset.1 as int),
                row == kick_table_row(self.spec_piece_type(), self.spec_rotation(), rotation),
                turned == self.with_rotation(rotation),
                points_of(kicks@) == row,
                kicks@.len() == 5,
                forall|j: int|
                    0 <= j < 5 ==> -2 <= (#[trigger] row[j]).0 <= 2 && -2 <= (row[j]).1 <= 2,
                set_idx <= 5,
                forall|j: int|
                    0 <= j < set_idx ==> turned.collides_at(
                        *board,
                        (off.0 + (#[trigger] row[j]).0, off.1 + row[j].1),
                    ),
            decreases kicks@.len() - set_idx,
        {
            let (x_kick, y_kick) = kicks[set_idx];
            proof {
                assert(row[set_idx as int] == (x_kick as int, y_kick as int));
            }
            let new_offset = (offset.0 + x_kick, offset.1 + y_kick);
            if let Ok(new_rotation) = self.try_rotate(board, new_offset, rotation) {
                return Ok((new_rotation, new_offset, set_idx));
            }
            set_idx += 1;
        }

        Err(())
    }
}

impl Piece {
    /// A fresh piece of the given type, in spawn orientation; what
    /// `Piece::from` returns.
    pub closed spec fn spawn_spec(piece_type: PieceType) -> Piece {
        Piece { piece_type, rotation: PieceRotation::R0 }
    }

    /// What a fresh piece is made of.
    pub proof fn lemma_spawn_spec(piece_type: PieceType)
        ensures
            Piece::spawn_spec(piece_type).spec_piece_type() == piece_type,
            Piece::spawn_spec(piece_type).spec_rotation() == PieceRotation::R0,
    {
    }

    /// Far enough below the floor, every piece collides: each of its cells
    /// sits within four rows of its local origin.
    pub proof fn lemma_low_offset_collides(self, board: Board, off: (int, int))
        requires
            off.1 <= -4,
        ensures
            self.collides_at(board, off),
    {
        let t = self.spec_piece_type();
        let r = self.spec_rotation();
        lemma_shape_cells_ok(t, r);
        let p = shape_cells(t, r)[0];
        assert(p.1 + off.1 < 0);
        assert(board.kind_at(p.0 + off.0, p.1 + off.1) is Wall);
    }
}

impl From<PieceType> for Piece {
    /// A fresh piece of the given type, in spawn orientation.
    fn from(piece_type: PieceType) -> (r: Self)
        ensures
            r.spec_piece_type() == piece_type,
            r.spec_rotation() == PieceRotation::R0,
            r == Piece::spawn_spec(piece_type),
    {
        Self::new(piece_type)
    }
}

impl vstd::std_specs::convert::FromSpecImpl<PieceType> for Piece {
    open spec fn obeys_from_spec() -> bool {
        true
    }

    open spec fn from_spec(piece_type: PieceType) -> Piece {
        Piece::spawn_spec(piece_type)
    }
}

/// Applying one more quarter turn after `n` turns is the same as rotating
/// `n + 1` times.
pub proof fn lemma_rotate_point_unroll(h: int, p: (int, int), n: nat)
    ensures
        rotate_point(h, p, n + 1) == (
            rotate_point(h, p, n).1,
            h - 1 - rotate_point(h, p, n).0,
        ),
    decreases n,
{
    let q = (p.1, h - 1 - p.0);
    assert(rotate_point(h, p, n + 1) == rotate_point(h, q, n));
    if n == 0 {
        assert(rotate_point(h, q, 0) == q);
        assert(rotate_point(h, p, 0) == p);
    } else {
        lemma_rotate_point_unroll(h, q, (n - 1) as nat);
        assert(rotate_point(h, p, n) == rotate_point(h, q, (n - 1) as nat));
    }
}

} // verus!
