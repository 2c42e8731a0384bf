//! The play-field grid: cell states, single cells, and the board with its
//! line-clear operations.

use crate::pieces::PieceType;
use vstd::prelude::*;

verus! {

/// What a single board cell holds. `Wall` is a sentinel returned for queries
/// outside the horizontal bounds or below the floor; it is normally not
/// stored.
#[derive(Debug, Copy, Clone, PartialEq, Eq, Structural)]
pub enum CellKind {
    Occupied(PieceType),
    Empty,
    Wall,
}

impl CellKind {
    /// True iff the cell holds a piece block.
    pub fn is_some(&self) -> (r: bool)
        ensures
            r == (self is Occupied),
    {
        matches!(self, CellKind::Occupied(_))
    }

    /// True iff the cell is empty.
    pub fn is_none(&self) -> (r: bool)
        ensures
            r == (self is Empty),
    {
        matches!(self, CellKind::Empty)
    }

    /// True iff this is the out-of-bounds sentinel.
    pub fn is_wall(&self) -> (r: bool)
        ensures
            r == (self is Wall),
    {
        matches!(self, CellKind::Wall)
    }

    /// The piece type held, or `default` for an empty or wall cell.
    pub fn unwrap_or(self, default: PieceType) -> (r: PieceType)
        ensures
            self is Occupied ==> r == self->Occupied_0,
            !(self is Occupied) ==> r == default,
    {
        match self {
            CellKind::Occupied(piece_type) => piece_type,
            _ => default,
        }
    }

    /// The piece type held; must not be called on an empty or wall cell.
    pub fn unwrap(self) -> (r: PieceType)
        requires
            self is Occupied,
        ensures
            r == self->Occupied_0,
    {
        match self {
            CellKind::Occupied(piece_type) => piece_type,
            _ => {
                // excluded by the precondition
                PieceType::I
            },
        }
    }

    /// The piece type held, if any.
    pub fn as_some(&self) -> (r: Option<PieceType>)
        ensures
            self is Occupied ==> r == Some(self->Occupied_0),
            !(self is Occupied) ==> r is None,
    {
        match self {
            CellKind::Occupied(piece_type) => Some(*piece_type),
            _ => None,
        }
    }
}

/// A board entry that carries its own position along with its state.
#[derive(Debug, Copy, Clone)]
pub struct Cell {
    pub x: isize,
    pub y: isize,
    pub cell_kind: CellKind,
}

impl Cell {
    /// A cell at `(x, y)` holding `cell_kind`.
    pub fn new(x: isize, y: isize, cell_kind: CellKind) -> (r: Cell)
        ensures
            r == (Cell { x, y, cell_kind }),
    {
        Cell { x, y, cell_kind }
    }

    /// An empty cell at `(x, y)`.
    pub fn dummy(x: isize, y: isize) -> (r: Cell)
        ensures
            r == (Cell { x, y, cell_kind: CellKind::Empty }),
    {
        Cell { x, y, cell_kind: CellKind::Empty }
    }

    /// The column of this cell.
    pub fn x(&self) -> (r: isize)
        ensures
            r == self.x,
    {
        self.x
    }

    /// The row of this cell.
    pub fn y(&self) -> (r: isize)
        ensures
            r == self.y,
    {
        self.y
    }

    /// Position as a pair.
    pub fn coords(&self) -> (r: (isize, isize))
        ensures
            r == (self.x, self.y),
    {
        (self.x, self.y)
    }

    /// The state of this cell.
    pub fn cell_kind(&self) -> (r: CellKind)
        ensures
            r == self.cell_kind,
    {
        self.cell_kind
    }
}

/// Cells compare by position alone, ignoring their state.
impl PartialEq for Cell {
    fn eq(&self, other: &Self) -> (r: bool) {
        self.x == other.x && self.y == other.y
    }
}

impl vstd::std_specs::cmp::PartialEqSpecImpl for Cell {
    open spec fn obeys_eq_spec() -> bool {
        true
    }

    open spec fn eq_spec(&self, other: &Cell) -> bool {
        self.x == other.x && self.y == other.y
    }
}

/// Cells order by row first, then by column: the deterministic row-major
/// iteration order.
impl PartialOrd for Cell {
    fn partial_cmp(&self, other: &Self) -> (r: Option<core::cmp::Ordering>) {
        if self.y < other.y {
            Some(core::cmp::Ordering::Less)
        } else if self.y > other.y {
            Some(core::cmp::Ordering::Greater)
        } else if self.x < other.x {
            Some(core::cmp::Ordering::Less)
        } else if self.x > other.x {
            Some(core::cmp::Ordering::Greater)
        } else {
            Some(core::cmp::Ordering::Equal)
        }
    }
}

impl vstd::std_specs::cmp::PartialOrdSpecImpl for Cell {
    open spec fn obeys_partial_cmp_spec() -> bool {
        true
    }

    open spec fn partial_cmp_spec(&self, other: &Cell) -> Option<core::cmp::Ordering> {
        if self.y < other.y {
            Some(core::cmp::Ordering::Less)
        } else if self.y > other.y {
            Some(core::cmp::Ordering::Greater)
        } else if self.x < other.x {
            Some(core::cmp::Ordering::Less)
        } else if self.x > other.x {
            Some(core::cmp::Ordering::Greater)
        } else {
            Some(core::cmp::Ordering::Equal)
        }
    }
}

impl Default for Cell {
    /// An empty cell at the origin.
    fn default() -> (r: Self)
        ensures
            r == (Cell { x: 0, y: 0, cell_kind: CellKind::Empty }),
    {
        Cell { x: 0, y: 0, cell_kind: CellKind::Empty }
    }
}

/// One step of filtering: extending the filtered prefix of `s` by element
/// `i` appends `s[i]` exactly when the predicate holds of it.
proof fn lemma_filter_take_step<A>(s: Seq<A>, p: spec_fn(A) -> bool, i: int)
    requires
        0 <= i < s.len(),
    ensures
        s.take(i + 1).filter(p) == s.take(i).filter(p) + if p(s[i]) {
            seq![s[i]]
        } else {
            Seq::<A>::empty()
        },
{
    reveal(Seq::filter);
    assert(s.take(i + 1).drop_last() =~= s.take(i));
    assert(s.take(i + 1).last() == s[i]);
    if p(s[i]) {
        assert(s.take(i + 1).filter(p) =~= s.take(i).filter(p) + seq![s[i]]);
    } else {
        assert(s.take(i + 1).filter(p) =~= s.take(i).filter(p) + Seq::<A>::empty());
    }
}

/// The states of one row of cells, in column order.
pub open spec fn row_kinds(row: Seq<Cell>) -> Seq<CellKind> {
    row.map_values(|c: Cell| c.cell_kind)
}

/// An all-empty row of states, `width` columns wide.
pub open spec fn empty_kinds_row(width: int) -> Seq<CellKind> {
    Seq::new(width as nat, |x: int| CellKind::Empty)
}

/// A row of cells with the given states whose cells each record their own
/// position in row `y`.
pub open spec fn row_with_coords(kinds: Seq<CellKind>, y: int) -> Seq<Cell> {
    Seq::new(kinds.len(), |x: int| Cell { x: x as isize, y: y as isize, cell_kind: kinds[x] })
}

/// The grid after row `y` is cleared: rows below `y` untouched, every row
/// above shifted down one (its cells re-addressed), and a fresh empty row on
/// top.
pub open spec fn shift_down_from(grid: Seq<Seq<Cell>>, y: int, width: int) -> Seq<Seq<Cell>> {
    Seq::new(
        grid.len(),
        |i: int|
            if i < y {
                grid[i]
            } else if i < grid.len() - 1 {
                row_with_coords(row_kinds(grid[i + 1]), i)
            } else {
                row_with_coords(empty_kinds_row(width), i)
            },
    )
}

/// True iff every column of the row is occupied.
pub open spec fn full_kinds_row(row: Seq<CellKind>) -> bool {
    forall|x: int| 0 <= x < row.len() ==> row[x] is Occupied
}

/// The states of a whole grid, row by row.
pub open spec fn kinds_of(grid: Seq<Seq<Cell>>) -> Seq<Seq<CellKind>> {
    grid.map_values(|row: Seq<Cell>| row_kinds(row))
}

/// How many rows of the grid are full.
pub open spec fn num_full(kinds: Seq<Seq<CellKind>>) -> nat {
    kinds.filter(|row: Seq<CellKind>| full_kinds_row(row)).len()
}

/// The lowest full row at index `i` or above among the first `height` rows,
/// or `height` if there is none.
pub open spec fn find_full(kinds: Seq<Seq<CellKind>>, height: int, i: int) -> int
    decreases height - i,
{
    if i < 0 || i >= height {
        height
    } else if full_kinds_row(kinds[i]) {
        i
    } else {
        find_full(kinds, height, i + 1)
    }
}

/// What `find_full` finds: a full row, the lowest one at `i` or above.
pub proof fn lemma_find_full(kinds: Seq<Seq<CellKind>>, height: int, i: int)
    requires
        0 <= i <= height,
    ensures
        i <= find_full(kinds, height, i) <= height,
        find_full(kinds, height, i) < height ==> full_kinds_row(kinds[find_full(kinds, height, i)]),
        forall|k: int| i <= k < find_full(kinds, height, i) ==> !full_kinds_row(#[trigger] kinds[k]),
    decreases height - i,
{
    if i < height && !full_kinds_row(kinds[i]) {
        lemma_find_full(kinds, height, i + 1);
    }
}

/// Filtering a sequence extended by one element appends that element exactly
/// when the predicate holds of it.
proof fn lemma_filter_push<A>(s: Seq<A>, p: spec_fn(A) -> bool, e: A)
    ensures
        s.push(e).filter(p) == s.filter(p) + if p(e) {
            seq![e]
        } else {
            Seq::<A>::empty()
        },
{
    reveal(Seq::filter);
    assert(s.push(e).drop_last() =~= s);
    if p(e) {
        assert(s.push(e).filter(p) =~= s.filter(p) + seq![e]);
    } else {
        assert(s.push(e).filter(p) =~= s.filter(p) + Seq::<A>::empty());
    }
}

/// Removing an element that satisfies the predicate shortens the filtered
/// sequence by one.
proof fn lemma_filter_remove_len<A>(s: Seq<A>, p: spec_fn(A) -> bool, j: int)
    requires
        0 <= j < s.len(),
        p(s[j]),
    ensures
        s.remove(j).filter(p).len() == s.filter(p).len() - 1,
    decreases s.len(),
{
    reveal(Seq::filter);
    if j == s.len() - 1 {
        assert(s.remove(j) =~= s.drop_last());
    } else {
        assert(s.remove(j).drop_last() =~= s.drop_last().remove(j));
        assert(s.remove(j).last() == s.last());
        lemma_filter_remove_len(s.drop_last(), p, j);
    }
}

/// Clearing a full row (removing it and adding an empty row on top) lowers
/// the count of full rows by exactly one.
proof fn lemma_num_full_clear(kinds: Seq<Seq<CellKind>>, j: int, width: int)
    requires
        0 <= j < kinds.len(),
        full_kinds_row(kinds[j]),
        width >= 1,
    ensures
        num_full(kinds.remove(j).push(empty_kinds_row(width))) == num_full(kinds) - 1,
{
    let p = |row: Seq<CellKind>| full_kinds_row(row);
    lemma_filter_remove_len(kinds, p, j);
    lemma_filter_push(kinds.remove(j), p, empty_kinds_row(width));
    assert(empty_kinds_row(width)[0] is Empty);
    assert(!full_kinds_row(empty_kinds_row(width)));
}

/// Iterated line clearing: repeatedly find the lowest full row among the
/// `height` visible ones and clear it, until no visible row is full. Yields
/// the resulting grid of states and the number of rows cleared.
pub open spec fn clear_lines_spec(kinds: Seq<Seq<CellKind>>, width: int, height: int) -> (
    Seq<Seq<CellKind>>,
    nat,
)
    decreases num_full(kinds),
    when width >= 1
    via clear_lines_spec_dec
{
    if width < 1 || height > kinds.len() {
        (kinds, 0)
    } else {
        let j = find_full(kinds, height, 0);
        if j == height {
            (kinds, 0)
        } else {
            let rec = clear_lines_spec(kinds.remove(j).push(empty_kinds_row(width)), width, height);
            (rec.0, (rec.1 + 1) as nat)
        }
    }
}

#[via_fn]
proof fn clear_lines_spec_dec(kinds: Seq<Seq<CellKind>>, width: int, height: int) {
    if !(width < 1 || height > kinds.len()) {
        let j = find_full(kinds, height, 0);
        if j != height {
            lemma_find_full(kinds, height, 0);
            lemma_num_full_clear(kinds, j, width);
        }
    }
}

/// At the level of cell states, clearing row `y` removes that row and adds
/// an all-empty row on top.
pub proof fn lemma_shift_kinds(grid: Seq<Seq<Cell>>, y: int, width: int)
    requires
        0 <= y < grid.len(),
        forall|i: int| 0 <= i < grid.len() ==> (#[trigger] grid[i]).len() == width,
    ensures
        kinds_of(shift_down_from(grid, y, width)) == kinds_of(grid).remove(y).push(
            empty_kinds_row(width),
        ),
{
    assert forall|k: Seq<CellKind>, i: int| true implies row_kinds(row_with_coords(k, i)) =~= k by {
    }
    assert(kinds_of(shift_down_from(grid, y, width)) =~~= kinds_of(grid).remove(y).push(
        empty_kinds_row(width),
    ));
}

/// Law: clearing lines on an all-empty board clears nothing and leaves the
/// grid unchanged.
pub proof fn lemma_clear_lines_empty_board(kinds: Seq<Seq<CellKind>>, width: int, height: int)
    requires
        width >= 1,
        0 <= height <= kinds.len(),
        forall|y: int| 0 <= y < kinds.len() ==> (#[trigger] kinds[y]).len() == width,
        forall|y: int, x: int|
            0 <= y < kinds.len() && 0 <= x < width ==> (#[trigger] kinds[y][x]) is Empty,
    ensures
        clear_lines_spec(kinds, width, height) == (kinds, 0nat),
{
    assert forall|y: int| 0 <= y < height implies !full_kinds_row(#[trigger] kinds[y]) by {
        assert(kinds[y][0] is Empty);
    }
    lemma_find_full(kinds, height, 0);
    if find_full(kinds, height, 0) < height {
        assert(false);
    }
}

/// Law: with exactly one full row and every other row non-full, clearing
/// lines clears exactly that row — every row above it shifts down one and an
/// empty row appears on top — and reports one cleared line.
pub proof fn lemma_clear_lines_single(
    kinds: Seq<Seq<CellKind>>,
    width: int,
    height: int,
    r: int,
)
    requires
        width >= 1,
        0 <= height <= kinds.len(),
        0 <= r < height,
        full_kinds_row(kinds[r]),
        forall|k: int| 0 <= k < kinds.len() && k != r ==> !full_kinds_row(#[trigger] kinds[k]),
    ensures
        clear_lines_spec(kinds, width, height) == (
            kinds.remove(r).push(empty_kinds_row(width)),
            1nat,
        ),
{
    lemma_find_full(kinds, height, 0);
    if find_full(kinds, height, 0) < r {
        assert(false);
    }
    assert(find_full(kinds, height, 0) == r);
    let next = kinds.remove(r).push(empty_kinds_row(width));
    assert(!full_kinds_row(empty_kinds_row(width))) by {
        assert(empty_kinds_row(width)[0] is Empty);
    }
    assert forall|k: int| 0 <= k < height implies !full_kinds_row(#[trigger] next[k]) by {
        if k < r {
            assert(next[k] == kinds[k]);
        } else if k < next.len() - 1 {
            assert(next[k] == kinds[k + 1]);
        }
    }
    lemma_find_full(next, height, 0);
    if find_full(next, height, 0) < height {
        assert(false);
    }
    assert(clear_lines_spec(next, width, height) == (next, 0nat));
    assert(clear_lines_spec(kinds, width, height) == (next, 1nat));
}

/// Law: with exactly two full rows, not adjacent, and every other row
/// non-full, one call clears both and reports two cleared lines; the end
/// state equals clearing the lower row and then the upper row one at a time,
/// and equally removing the upper and then the lower row — the order does
/// not matter.
pub proof fn lemma_clear_lines_two(
    kinds: Seq<Seq<CellKind>>,
    width: int,
    height: int,
    r1: int,
    r2: int,
)
    requires
        width >= 1,
        0 <= height <= kinds.len(),
        0 <= r1,
        r1 + 1 < r2 < height,
        full_kinds_row(kinds[r1]),
        full_kinds_row(kinds[r2]),
        forall|k: int|
            0 <= k < kinds.len() && k != r1 && k != r2 ==> !full_kinds_row(#[trigger] kinds[k]),
    ensures
        clear_lines_spec(kinds, width, height) == (
            kinds.remove(r1).push(empty_kinds_row(width)).remove(r2 - 1).push(
                empty_kinds_row(width),
            ),
            2nat,
        ),
        kinds.remove(r1).push(empty_kinds_row(width)).remove(r2 - 1).push(empty_kinds_row(width))
            == kinds.remove(r2).push(empty_kinds_row(width)).remove(r1).push(
            empty_kinds_row(width),
        ),
{
    let e = empty_kinds_row(width);
    assert(!full_kinds_row(e)) by {
        assert(e[0] is Empty);
    }
    lemma_find_full(kinds, height, 0);
    if find_full(kinds, height, 0) < r1 {
        assert(false);
    }
    assert(find_full(kinds, height, 0) == r1);
    let next1 = kinds.remove(r1).push(e);
    assert(next1[r2 - 1] == kinds[r2]);
    assert forall|k: int| 0 <= k < r2 - 1 implies !full_kinds_row(#[trigger] next1[k]) by {
        if k < r1 {
            assert(next1[k] == kinds[k]);
        } else if k < next1.len() - 1 {
            assert(next1[k] == kinds[k + 1]);
        }
    }
    lemma_find_full(next1, height, 0);
    if find_full(next1, height, 0) < r2 - 1 {
        assert(false);
    }
    assert(find_full(next1, height, 0) == r2 - 1);
    let next2 = next1.remove(r2 - 1).push(e);
    assert forall|k: int| 0 <= k < height implies !full_kinds_row(#[trigger] next2[k]) by {
        if k < next2.len() - 1 {
            if k < r2 - 1 {
                assert(next2[k] == next1[k]);
            } else {
                assert(next2[k] == next1[k + 1]);
                if k + 1 < next1.len() - 1 {
                    assert(next1[k + 1] == kinds[k + 2]);
                }
            }
        }
    }
    lemma_find_full(next2, height, 0);
    if find_full(next2, height, 0) < height {
        assert(false);
    }
    assert(clear_lines_spec(next2, width, height) == (next2, 0nat));
    assert(clear_lines_spec(next1, width, height) == (next2, 1nat));
    assert(clear_lines_spec(kinds, width, height) == (next2, 2nat));
    assert(next2 =~= kinds.remove(r2).push(e).remove(r1).push(e));
}

/// A row with no occupied cell contributes nothing to the occupied cells.
pub proof fn lemma_row_occ_empty(row: Seq<Cell>)
    requires
        forall|x: int| 0 <= x < row.len() ==> !((#[trigger] row[x]).cell_kind is Occupied),
    ensures
        Board::row_occupied(row).len() == 0,
    decreases row.len(),
{
    reveal(Seq::filter);
    if row.len() > 0 {
        lemma_row_occ_empty(row.drop_last());
    }
}

/// A grid with no occupied cell has no occupied cells.
pub proof fn lemma_occ_of_all_empty(grid: Seq<Seq<Cell>>)
    requires
        forall|y: int, x: int|
            0 <= y < grid.len() && 0 <= x < grid[y].len() ==> !((#[trigger] grid[y][x]).cell_kind
                is Occupied),
    ensures
        Board::occupied_of(grid).len() == 0,
    decreases grid.len(),
{
    if grid.len() > 0 {
        lemma_occ_of_all_empty(grid.drop_last());
        assert(forall|x: int|
            0 <= x < grid.last().len() ==> !((#[trigger] grid.last()[x]).cell_kind is Occupied));
        lemma_row_occ_empty(grid.last());
    }
}

/// Occupying a previously unoccupied cell of a row adds one occupied cell.
pub proof fn lemma_row_occ_update_add(row: Seq<Cell>, x: int, c: Cell)
    requires
        0 <= x < row.len(),
        !(row[x].cell_kind is Occupied),
        c.cell_kind is Occupied,
    ensures
        Board::row_occupied(row.update(x, c)).len() == Board::row_occupied(row).len() + 1,
    decreases row.len(),
{
    reveal(Seq::filter);
    if x == row.len() - 1 {
        assert(row.update(x, c).drop_last() =~= row.drop_last());
    } else {
        assert(row.update(x, c).drop_last() =~= row.drop_last().update(x, c));
        assert(row.update(x, c).last() == row.last());
        lemma_row_occ_update_add(row.drop_last(), x, c);
    }
}

/// Occupying a previously unoccupied cell of a grid adds one occupied cell.
pub proof fn lemma_occ_of_update_add(grid: Seq<Seq<Cell>>, y: int, x: int, c: Cell)
    requires
        0 <= y < grid.len(),
        0 <= x < grid[y].len(),
        !(grid[y][x].cell_kind is Occupied),
        c.cell_kind is Occupied,
    ensures
        Board::occupied_of(grid.update(y, grid[y].update(x, c))).len() == Board::occupied_of(
            grid,
        ).len() + 1,
    decreases grid.len(),
{
    let g2 = grid.update(y, grid[y].update(x, c));
    if y == grid.len() - 1 {
        assert(g2.drop_last() =~= grid.drop_last());
        lemma_row_occ_update_add(grid.last(), x, c);
    } else {
        assert(g2.drop_last() =~= grid.drop_last().update(y, grid[y].update(x, c)));
        assert(g2.last() == grid.last());
        lemma_occ_of_update_add(grid.drop_last(), y, x, c);
    }
}

/// The character a cell state is drawn as.
pub open spec fn kind_char(k: CellKind) -> char {
    match k {
        CellKind::Occupied(_) => 'X',
        CellKind::Empty => '#',
        CellKind::Wall => ' ',
    }
}

/// One row of the text picture: a character per cell and a newline.
pub open spec fn row_text(row: Seq<Cell>) -> Seq<char> {
    row.map_values(|c: Cell| kind_char(c.cell_kind)).push('\n')
}

/// The text picture of the bottom `upto` rows, printed top row first.
pub open spec fn board_text(grid: Seq<Seq<Cell>>, upto: int) -> Seq<char>
    decreases upto,
{
    if upto <= 0 {
        Seq::empty()
    } else {
        row_text(grid[upto - 1]) + board_text(grid, upto - 1)
    }
}

/// The positions of one column of the visible play field, bottom to top.
pub open spec fn column_coords(x: int, height: int) -> Seq<(isize, isize)> {
    Seq::new(height as nat, |y: int| ((x as isize), (y as isize)))
}

/// The positions of the visible play field for all columns left of `width`,
/// column by column, each bottom to top.
pub open spec fn coords_below(width: int, height: int) -> Seq<(isize, isize)>
    decreases width,
{
    if width <= 0 {
        Seq::empty()
    } else {
        coords_below(width - 1, height) + column_coords(width - 1, height)
    }
}

/// The play field: `width` columns by `height` visible rows, plus hidden
/// margin rows above the visible area so that spawning and rotating near the
/// top needs no special cases. Row `0` is the bottom; `y` grows upward.
pub struct Board {
    width: usize,
    height: usize,
    cells: Vec<Vec<Cell>>,
}

impl Board {
    /// The stored grid: one inner sequence per row, bottom row first.
    pub closed spec fn grid(&self) -> Seq<Seq<Cell>> {
        self.cells@.map(|i: int, r: Vec<Cell>| r@)
    }

    /// The number of columns.
    pub closed spec fn spec_width(&self) -> int {
        self.width as int
    }

    /// The number of visible rows.
    pub closed spec fn spec_height(&self) -> int {
        self.height as int
    }

    /// The number of stored rows, hidden margin included.
    pub open spec fn total_rows(&self) -> int {
        self.grid().len() as int
    }

    /// The stored state of the cell in column `x` of row `y`; meaningful for
    /// `0 <= x < width` and `0 <= y < total_rows`.
    pub open spec fn stored_kind(&self, x: int, y: int) -> CellKind {
        self.grid()[y][x].cell_kind
    }

    /// Well-formedness: the grid is rectangular, the dimensions fit in
    /// `isize` (coordinates are queried as `isize`), the visible rows are
    /// among the stored rows, and every non-empty cell records its own
    /// position.
    pub open spec fn wf(&self) -> bool {
        &&& self.spec_width() <= isize::MAX
        &&& self.total_rows() <= isize::MAX
        &&& self.spec_height() <= self.total_rows()
        &&& forall|y: int|
            0 <= y < self.total_rows() ==> (#[trigger] self.grid()[y]).len() == self.spec_width()
        &&& forall|y: int, x: int|
            0 <= y < self.total_rows() && 0 <= x < self.spec_width() && !(
            #[trigger] self.grid()[y][x].cell_kind is Empty) ==> self.grid()[y][x] == (Cell {
                x: x as isize,
                y: y as isize,
                cell_kind: self.grid()[y][x].cell_kind,
            })
    }

    /// An all-empty board with no hidden margin.
    pub fn new(width: usize, height: usize) -> (r: Board)
        requires
            width <= isize::MAX,
            height <= isize::MAX,
        ensures
            r.wf(),
            r.spec_width() == width,
            r.spec_height() == height,
            r.total_rows() == height,
            forall|y: int, x: int|
                0 <= y < height && 0 <= x < width ==> r.grid()[y][x] == (Cell {
                    x: 0,
                    y: 0,
                    cell_kind: CellKind::Empty,
                }),
    {
        Self::with_top_margin(width, height, 0)
    }

    /// An all-empty board with `margin` hidden rows above the `height`
    /// visible ones.
    pub fn with_top_margin(width: usize, height: usize, margin: usize) -> (r: Board)
        requires
            width <= isize::MAX,
            height + margin <= isize::MAX,
        ensures
            r.wf(),
            r.spec_width() == width,
            r.spec_height() == height,
            r.total_rows() == height + margin,
            forall|y: int, x: int|
                0 <= y < height + margin && 0 <= x < width ==> r.grid()[y][x] == (Cell {
                    x: 0,
                    y: 0,
                    cell_kind: CellKind::Empty,
                }),
    {
        let total: usize = height + margin;
        let mut cells: Vec<Vec<Cell>> = Vec::new();
        let mut y: usize = 0;
        while y < total
            invariant
                y <= total,
                cells@.len() == y,
                forall|i: int|
                    0 <= i < y ==> (#[trigger] cells@[i])@ =~= Seq::new(
                        width as nat,
                        |x: int| Cell { x: 0, y: 0, cell_kind: CellKind::Empty },
                    ),
            decreases total - y,
        {
            let mut row: Vec<Cell> = Vec::new();
            let mut x: usize = 0;
            while x < width
                invariant
                    x <= width,
                    row@ =~= Seq::new(x as nat, |i: int| Cell { x: 0, y: 0, cell_kind: CellKind::Empty }),
                decreases width - x,
            {
                row.push(Cell { x: 0, y: 0, cell_kind: CellKind::Empty });
                x += 1;
            }
            cells.push(row);
            y += 1;
        }
        Board { width, height, cells }
    }

    /// Write `cell_kind` at `(x, y)` if the position lies within the stored
    /// grid (margin included); out-of-range writes are dropped. Returns
    /// whether the write happened.
    pub fn set(&mut self, x: isize, y: isize, cell_kind: CellKind) -> (r: bool)
        requires
            old(self).wf(),
        ensures
            final(self).wf(),
            final(self).spec_width() == old(self).spec_width(),
            final(self).spec_height() == old(self).spec_height(),
            final(self).total_rows() == old(self).total_rows(),
            r == (0 <= x < old(self).spec_width() && 0 <= y < old(self).total_rows()),
            r ==> final(self).grid() == old(self).grid().update(
                y as int,
                old(self).grid()[y as int].update(x as int, (Cell { x, y, cell_kind })),
            ),
            !r ==> final(self).grid() == old(self).grid(),
    {
        if x < 0 || y < 0 || x >= self.width as isize || y >= self.cells.len() as isize {
            return false;
        }
        proof {
            assert(self.grid()[y as int].len() == self.spec_width());
        }
        let row: &mut Vec<Cell> = &mut self.cells[y as usize];
        row[x as usize] = Cell { x, y, cell_kind };
        proof {
            assert(final(self).grid() =~= old(self).grid().update(
                y as int,
                old(self).grid()[y as int].update(x as int, (Cell { x, y, cell_kind })),
            ));
        }
        true
    }

    /// The stored state at `(x, y)`: `Wall` beyond the side walls or below
    /// the floor, `Empty` above the top of the stored grid, and the stored
    /// cell state otherwise.
    pub open spec fn kind_at(&self, x: int, y: int) -> CellKind {
        if x < 0 || y < 0 || x >= self.spec_width() {
            CellKind::Wall
        } else if y < self.total_rows() {
            self.stored_kind(x, y)
        } else {
            CellKind::Empty
        }
    }

    /// The cell state used for collision tests: `Wall` outside the side or
    /// floor bounds, `Empty` above the stored grid, else the stored state.
    pub fn get_cell_kind(&self, x: isize, y: isize) -> (r: CellKind)
        requires
            self.wf(),
        ensures
            r == self.kind_at(x as int, y as int),
    {
        if x < 0 || y < 0 || x >= self.width as isize {
            return CellKind::Wall;
        }
        if (y as usize) < self.cells.len() {
            return self.cells[y as usize][x as usize].cell_kind;
        }
        CellKind::Empty
    }

    /// The occupied cell at `(x, y)`, if the position is within the visible
    /// play field and the cell is occupied.
    pub fn get(&self, x: isize, y: isize) -> (r: Option<Cell>)
        requires
            self.wf(),
        ensures
            (match r {
                Some(c) => 0 <= x < self.spec_width() && 0 <= y < self.spec_height()
                    && self.stored_kind(x as int, y as int) is Occupied && c == self.grid()[y as int][x as int],
                None => !(0 <= x < self.spec_width() && 0 <= y < self.spec_height()
                    && self.stored_kind(x as int, y as int) is Occupied),
            }),
    {
        if x < 0 || y < 0 || x >= self.width as isize || y >= self.height as isize {
            return None;
        }
        let cell = self.cells[y as usize][x as usize];
        if cell.cell_kind.is_some() {
            Some(cell)
        } else {
            None
        }
    }

    /// The occupied cells of one row, in column order.
    pub open spec fn row_occupied(row: Seq<Cell>) -> Seq<Cell> {
        row.filter(|c: Cell| c.cell_kind is Occupied)
    }

    /// The occupied cells of a grid in row-major order: bottom row first,
    /// each row in column order.
    pub open spec fn occupied_of(grid: Seq<Seq<Cell>>) -> Seq<Cell>
        decreases grid.len(),
    {
        if grid.len() == 0 {
            Seq::empty()
        } else {
            Self::occupied_of(grid.drop_last()) + Self::row_occupied(grid.last())
        }
    }

    /// The occupied cells of this board (margin rows included), row-major.
    pub open spec fn occupied_cells(&self) -> Seq<Cell> {
        Self::occupied_of(self.grid())
    }

    /// All occupied cells, bottom row first and in column order within a row.
    pub fn cells(&self) -> (r: Vec<Cell>)
        requires
            self.wf(),
        ensures
            r@ == self.occupied_cells(),
    {
        let mut out: Vec<Cell> = Vec::new();
        let mut y: usize = 0;
        while y < self.cells.len()
            invariant
                self.wf(),
                y <= self.total_rows(),
                out@ == Self::occupied_of(self.grid().take(y as int)),
            decreases self.total_rows() - y,
        {
            proof {
                assert(self.grid()[y as int].len() == self.spec_width());
            }
            let row: &Vec<Cell> = &self.cells[y];
            let mut x: usize = 0;
            while x < row.len()
                invariant
                    self.wf(),
                    y < self.total_rows(),
                    row@ == self.grid()[y as int],
                    row@.len() == self.spec_width(),
                    x <= row@.len(),
                    out@ == Self::occupied_of(self.grid().take(y as int)) + Self::row_occupied(
                        row@.take(x as int),
                    ),
                decreases row@.len() - x,
            {
                let cell = row[x];
                proof {
                    lemma_filter_take_step(row@, |c: Cell| c.cell_kind is Occupied, x as int);
                }
                if cell.cell_kind.is_some() {
                    out.push(cell);
                }
                x += 1;
            }
            proof {
                assert(row@.take(row@.len() as int) =~= row@);
                assert(self.grid().take(y + 1).drop_last() =~= self.grid().take(y as int));
                assert(Self::occupied_of(self.grid().take(y + 1)) == Self::occupied_of(
                    self.grid().take(y as int),
                ) + Self::row_occupied(self.grid()[y as int]));
            }
            y += 1;
        }
        proof {
            assert(self.grid().take(self.total_rows()) =~= self.grid());
        }
        out
    }

    /// The positions of all occupied cells, in the same order as `cells`.
    pub fn cell_coords(&self) -> (r: Vec<(isize, isize)>)
        requires
            self.wf(),
        ensures
            r@ == self.occupied_cells().map_values(|c: Cell| (c.x, c.y)),
    {
        let cells = self.cells();
        let mut out: Vec<(isize, isize)> = Vec::new();
        let mut i: usize = 0;
        while i < cells.len()
            invariant
                cells@ == self.occupied_cells(),
                i <= cells@.len(),
                out@ == cells@.take(i as int).map_values(|c: Cell| (c.x, c.y)),
            decreases cells@.len() - i,
        {
            let c = cells[i];
            out.push((c.x, c.y));
            proof {
                assert(cells@.take(i + 1).map_values(|c: Cell| (c.x, c.y)) =~= cells@.take(
                    i as int,
                ).map_values(|c: Cell| (c.x, c.y)).push((c.x, c.y)));
            }
            i += 1;
        }
        proof {
            assert(cells@.take(cells@.len() as int) =~= cells@);
        }
        out
    }

    /// The occupied cells whose own row coordinate is `row`, in column order.
    pub fn row_cells(&self, row: usize) -> (r: Vec<Cell>)
        requires
            self.wf(),
            row <= isize::MAX,
        ensures
            r@ == self.occupied_cells().filter(|c: Cell| c.y == row as isize),
    {
        let cells = self.cells();
        let mut out: Vec<Cell> = Vec::new();
        let mut i: usize = 0;
        while i < cells.len()
            invariant
                cells@ == self.occupied_cells(),
                i <= cells@.len(),
                out@ == cells@.take(i as int).filter(|c: Cell| c.y == row as isize),
            decreases cells@.len() - i,
        {
            let c = cells[i];
            proof {
                lemma_filter_take_step(cells@, |c: Cell| c.y == row as isize, i as int);
            }
            if c.y == row as isize {
                out.push(c);
            }
            i += 1;
        }
        proof {
            assert(cells@.take(cells@.len() as int) =~= cells@);
        }
        out
    }

    /// True iff every column of stored row `y` is occupied.
    pub open spec fn spec_row_full(&self, y: int) -> bool {
        forall|x: int| 0 <= x < self.spec_width() ==> self.stored_kind(x, y) is Occupied
    }

    /// True iff every column in row `y` is occupied.
    pub fn row_is_full(&self, y: usize) -> (r: bool)
        requires
            self.wf(),
            y < self.total_rows(),
        ensures
            r == self.spec_row_full(y as int),
    {
        proof {
            assert(self.grid()[y as int].len() == self.spec_width());
        }
        let row: &Vec<Cell> = &self.cells[y];
        let mut x: usize = 0;
        while x < row.len()
            invariant
                self.wf(),
                y < self.total_rows(),
                row@ == self.grid()[y as int],
                row@.len() == self.spec_width(),
                x <= row@.len(),
                forall|i: int| 0 <= i < x ==> self.stored_kind(i, y as int) is Occupied,
            decreases row@.len() - x,
        {
            if !row[x].cell_kind.is_some() {
                proof {
                    assert(!(self.stored_kind(x as int, y as int) is Occupied));
                }
                return false;
            }
            x += 1;
        }
        true
    }

    /// Copies of the visible rows, bottom row first.
    pub fn rows(&self) -> (r: Vec<Vec<Cell>>)
        requires
            self.wf(),
        ensures
            r@.len() == self.spec_height(),
            forall|y: int| 0 <= y < self.spec_height() ==> (#[trigger] r@[y])@ == self.grid()[y],
    {
        let mut out: Vec<Vec<Cell>> = Vec::new();
        let mut y: usize = 0;
        while y < self.height
            invariant
                self.wf(),
                y <= self.spec_height(),
                out@.len() == y,
                forall|i: int| 0 <= i < y ==> (#[trigger] out@[i])@ == self.grid()[i],
            decreases self.spec_height() - y,
        {
            proof {
                assert(self.grid()[y as int].len() == self.spec_width());
            }
            let src: &Vec<Cell> = &self.cells[y];
            let mut row: Vec<Cell> = Vec::new();
            let mut x: usize = 0;
            while x < src.len()
                invariant
                    x <= src@.len(),
                    row@ == src@.take(x as int),
                decreases src@.len() - x,
            {
                row.push(src[x]);
                proof {
                    assert(src@.take(x + 1) =~= src@.take(x as int).push(src@[x as int]));
                }
                x += 1;
            }
            proof {
                assert(src@.take(src@.len() as int) =~= src@);
            }
            out.push(row);
            y += 1;
        }
        out
    }

    /// All positions of the visible play field, column by column: `(0, 0)`
    /// up to `(0, height - 1)`, then column `1`, and so on.
    pub fn coords(&self) -> (r: Vec<(isize, isize)>)
        requires
            self.wf(),
        ensures
            r@ == coords_below(self.spec_width(), self.spec_height()),
    {
        let mut out: Vec<(isize, isize)> = Vec::new();
        let mut x: usize = 0;
        while x < self.width
            invariant
                self.wf(),
                x <= self.spec_width(),
                out@ == coords_below(x as int, self.spec_height()),
            decreases self.spec_width() - x,
        {
            let mut y: usize = 0;
            while y < self.height
                invariant
                    self.wf(),
                    x < self.spec_width(),
                    y <= self.spec_height(),
                    out@ == coords_below(x as int, self.spec_height()) + column_coords(
                        x as int,
                        self.spec_height(),
                    ).take(y as int),
                decreases self.spec_height() - y,
            {
                out.push((x as isize, y as isize));
                proof {
                    assert(column_coords(x as int, self.spec_height()).take(y + 1)
                        =~= column_coords(x as int, self.spec_height()).take(y as int).push(
                        ((x as isize), (y as isize)),
                    ));
                }
                y += 1;
            }
            proof {
                assert(column_coords(x as int, self.spec_height()).take(self.spec_height())
                    =~= column_coords(x as int, self.spec_height()));
            }
            x += 1;
        }
        out
    }

    /// The states of this board's cells, row by row.
    pub open spec fn kinds_grid(&self) -> Seq<Seq<CellKind>> {
        kinds_of(self.grid())
    }

    /// Empty row `y`, returning its previous cells, and shift every stored
    /// row above it (hidden margin included) down by one.
    pub fn clear_line(&mut self, y: usize) -> (r: Vec<Cell>)
        requires
            old(self).wf(),
            y < old(self).total_rows(),
        ensures
            final(self).wf(),
            final(self).spec_width() == old(self).spec_width(),
            final(self).spec_height() == old(self).spec_height(),
            final(self).total_rows() == old(self).total_rows(),
            r@ == old(self).grid()[y as int],
            final(self).grid() == shift_down_from(
                old(self).grid(),
                y as int,
                old(self).spec_width(),
            ),
    {
        let ghost orig = self.grid();
        let ghost w = self.spec_width();
        let mut cleared: Vec<Cell> = Vec::new();

        proof {
            assert(orig[y as int].len() == w);
        }
        let mut x: usize = 0;
        while x < self.width
            invariant
                self.wf(),
                self.spec_width() == w,
                self.spec_height() == old(self).spec_height(),
                self.total_rows() == old(self).total_rows(),
                y < self.total_rows(),
                x <= w,
                cleared@ == orig[y as int].take(x as int),
                orig[y as int].len() == w,
                forall|i: int| 0 <= i < self.total_rows() && i != y ==> self.grid()[i] == orig[i],
                self.grid()[y as int] =~= Seq::new(
                    w as nat,
                    |j: int|
                        if j < x {
                            Cell { x: j as isize, y: y as isize, cell_kind: CellKind::Empty }
                        } else {
                            orig[y as int][j]
                        },
                ),
            decreases w - x,
        {
            proof {
                assert(self.grid()[y as int].len() == w);
            }
            let cell = self.cells[y][x];
            self.set(x as isize, y as isize, CellKind::Empty);
            cleared.push(cell);
            proof {
                assert(cleared@ =~= orig[y as int].take(x + 1));
            }
            x += 1;
        }
        proof {
            assert(cleared@ =~= orig[y as int]);
            assert(self.grid()[y as int] =~= row_with_coords(empty_kinds_row(w), y as int));
        }

        // move all cells above down
        let total = self.cells.len();
        let mut yy: usize = y + 1;
        while yy < total
            invariant
                self.wf(),
                self.spec_width() == w,
                self.spec_height() == old(self).spec_height(),
                self.total_rows() == old(self).total_rows(),
                total == self.total_rows(),
                y < yy <= total,
                forall|i: int| 0 <= i < y ==> self.grid()[i] == orig[i],
                forall|i: int|
                    y <= i < yy - 1 ==> self.grid()[i] =~= row_with_coords(
                        row_kinds(orig[i + 1]),
                        i,
                    ),
                self.grid()[yy - 1] =~= row_with_coords(empty_kinds_row(w), yy - 1),
                forall|i: int| yy <= i < total ==> self.grid()[i] == orig[i],
            decreases total - yy,
        {
            proof {
                assert(self.grid()[yy as int].len() == w);
                assert(orig[yy as int].len() == w);
            }
            let ghost pre = self.grid();
            let mut x: usize = 0;
            while x < self.width
                invariant
                    self.wf(),
                    self.spec_width() == w,
                    self.spec_height() == old(self).spec_height(),
                    self.total_rows() == old(self).total_rows(),
                    total == self.total_rows(),
                    y < yy < total,
                    x <= w,
                    orig[yy as int].len() == w,
                    forall|i: int|
                        0 <= i < self.total_rows() && i != yy && i != yy - 1 ==> self.grid()[i]
                            == pre[i],
                    pre[yy as int] == orig[yy as int],
                    pre[yy - 1] =~= row_with_coords(empty_kinds_row(w), yy - 1),
                    self.grid()[yy as int] =~= Seq::new(
                        w as nat,
                        |j: int|
                            if j < x {
                                Cell { x: j as isize, y: yy as isize, cell_kind: CellKind::Empty }
                            } else {
                                orig[yy as int][j]
                            },
                    ),
                    self.grid()[yy - 1] =~= Seq::new(
                        w as nat,
                        |j: int|
                            if j < x {
                                Cell {
                                    x: j as isize,
                                    y: (yy - 1) as isize,
                                    cell_kind: orig[yy as int][j].cell_kind,
                                }
                            } else {
                                pre[yy - 1][j]
                            },
                    ),
                decreases w - x,
            {
                proof {
                    assert(self.grid()[yy as int].len() == w);
                }
                let cell = self.cells[yy][x];
                proof {
                    assert(cell == orig[yy as int][x as int]);
                }
                self.set(x as isize, yy as isize, CellKind::Empty);
                self.set(x as isize, yy as isize - 1, cell.cell_kind);
                x += 1;
            }
            proof {
                assert(self.grid()[yy - 1] =~= row_with_coords(row_kinds(orig[yy as int]), yy - 1));
                assert(self.grid()[yy as int] =~= row_with_coords(empty_kinds_row(w), yy as int));
                assert forall|i: int| y <= i <= yy - 1 implies self.grid()[i] =~= row_with_coords(
                    row_kinds(orig[i + 1]),
                    i,
                ) by {
                    if i < yy - 1 {
                        assert(self.grid()[i] == pre[i]);
                        assert(pre[i] =~= row_with_coords(row_kinds(orig[i + 1]), i));
                    }
                }
            }
            yy += 1;
        }
        proof {
            assert(self.grid() =~= shift_down_from(orig, y as int, w));
        }
        cleared
    }

    /// Scan the visible rows bottom-up; whenever a row is full, clear it
    /// (shifting everything above down) and rescan from that row, since the
    /// shift may have made the row full again. Returns how many rows were
    /// cleared.
    pub fn clear_lines(&mut self) -> (r: usize)
        requires
            old(self).wf(),
            old(self).spec_width() >= 1,
        ensures
            final(self).wf(),
            final(self).spec_width() == old(self).spec_width(),
            final(self).spec_height() == old(self).spec_height(),
            final(self).total_rows() == old(self).total_rows(),
            (final(self).kinds_grid(), r as nat) == clear_lines_spec(
                old(self).kinds_grid(),
                old(self).spec_width(),
                old(self).spec_height(),
            ),
    {
        let ghost w = self.spec_width();
        let ghost h = self.spec_height();
        let ghost orig = self.kinds_grid();
        let mut count: usize = 0;
        let mut y: usize = 0;
        proof {
            broadcast use vstd::seq_lib::group_seq_properties;

            assert(orig.filter(|row: Seq<CellKind>| full_kinds_row(row)).len() <= orig.len()) by {
                orig.lemma_filter_len(|row: Seq<CellKind>| full_kinds_row(row));
            }
        }
        while y < self.height
            invariant
                self.wf(),
                self.spec_width() == w,
                w >= 1,
                self.spec_height() == h,
                self.total_rows() == old(self).total_rows(),
                y <= h,
                count + num_full(self.kinds_grid()) == num_full(orig),
                num_full(orig) <= orig.len() == self.total_rows(),
                forall|k: int| 0 <= k < y ==> !full_kinds_row(#[trigger] self.kinds_grid()[k]),
                clear_lines_spec(orig, w, h) == (
                    clear_lines_spec(self.kinds_grid(), w, h).0,
                    (count + clear_lines_spec(self.kinds_grid(), w, h).1) as nat,
                ),
            decreases num_full(self.kinds_grid()), h - y,
        {
            let ghost cur = self.kinds_grid();
            let ghost gpre = self.grid();
            if self.row_is_full(y) {
                proof {
                    assert(cur[y as int] == row_kinds(gpre[y as int]));
                    assert(gpre[y as int].len() == w);
                    assert forall|x: int| 0 <= x < cur[y as int].len() implies cur[y as int][x]
                        is Occupied by {
                        assert(self.stored_kind(x, y as int) is Occupied);
                    }
                    lemma_find_full(cur, h, 0);
                    if find_full(cur, h, 0) < y {
                        assert(full_kinds_row(cur[find_full(cur, h, 0)]));
                        assert(false);
                    }
                    assert(find_full(cur, h, 0) == y);
                }
                self.clear_line(y);
                count += 1;
                proof {
                    lemma_shift_kinds(gpre, y as int, w);
                    let next = cur.remove(y as int).push(empty_kinds_row(w));
                    assert(self.kinds_grid() == next);
                    lemma_num_full_clear(cur, y as int, w);
                    assert(clear_lines_spec(cur, w, h) == (
                        clear_lines_spec(next, w, h).0,
                        (clear_lines_spec(next, w, h).1 + 1) as nat,
                    ));
                    assert forall|k: int| 0 <= k < y implies !full_kinds_row(
                        #[trigger] next[k],
                    ) by {
                        assert(next[k] == cur[k]);
                    }
                }
            } else {
                proof {
                    assert(cur[y as int] == row_kinds(gpre[y as int]));
                    assert(gpre[y as int].len() == w);
                    let xw = choose|x: int|
                        0 <= x < w && !(self.stored_kind(x, y as int) is Occupied);
                    assert(!(cur[y as int][xw] is Occupied));
                    assert(!full_kinds_row(cur[y as int]));
                }
                y += 1;
            }
        }
        proof {
            let cur = self.kinds_grid();
            lemma_find_full(cur, h, 0);
            assert(find_full(cur, h, 0) == h);
        }
        count
    }

    /// A text picture of the visible play field, top row first: `X` for an
    /// occupied cell, `#` for an empty one, a space for a stored wall
    /// sentinel, one line per row.
    pub fn to_text(&self) -> (r: String)
        requires
            self.wf(),
        ensures
            r@ == board_text(self.grid(), self.spec_height()),
    {
        let mut s = String::new();
        let mut rem: usize = self.height;
        while rem > 0
            invariant
                self.wf(),
                rem <= self.spec_height(),
                board_text(self.grid(), self.spec_height()) == s@ + board_text(
                    self.grid(),
                    rem as int,
                ),
            decreases rem,
        {
            let y = rem - 1;
            proof {
                assert(self.grid()[y as int].len() == self.spec_width());
            }
            let ghost srow = s@;
            let row: &Vec<Cell> = &self.cells[y];
            let mut x: usize = 0;
            while x < row.len()
                invariant
                    row@.len() == self.spec_width(),
                    x <= row@.len(),
                    s@ == srow + row_text(row@).take(x as int),
                decreases row@.len() - x,
            {
                let c = row[x];
                match c.cell_kind {
                    CellKind::Occupied(_) => s.append("X"),
                    CellKind::Empty => s.append("#"),
                    CellKind::Wall => s.append(" "),
                }
                proof {
                    reveal_strlit("X");
                    reveal_strlit("#");
                    reveal_strlit(" ");
                    assert(row_text(row@).take(x + 1) =~= row_text(row@).take(x as int).push(
                        kind_char(row@[x as int].cell_kind),
                    ));
                    assert(s@ =~= srow + row_text(row@).take(x + 1));
                }
                x += 1;
            }
            s.append("\n");
            proof {
                reveal_strlit("\n");
                assert(row_text(row@).take(row@.len() as int) =~= row_text(row@).drop_last());
                assert(s@ =~= srow + row_text(self.grid()[y as int]));
                assert(board_text(self.grid(), rem as int) == row_text(self.grid()[y as int])
                    + board_text(self.grid(), y as int));
                assert(srow + (row_text(self.grid()[y as int]) + board_text(
                    self.grid(),
                    y as int,
                )) =~= s@ + board_text(self.grid(), y as int));
            }
            rem = y;
        }
        proof {
            assert(s@ + board_text(self.grid(), 0) =~= s@);
        }
        s
    }

    /// The number of columns.
    pub fn width(&self) -> (r: usize)
        ensures
            r == self.spec_width(),
    {
        self.width
    }

    /// The number of visible rows.
    pub fn height(&self) -> (r: usize)
        ensures
            r == self.spec_height(),
    {
        self.height
    }
}

} // verus!
