//! The grid: a fixed rectangle of cells stored row by row.

use vstd::prelude::*;
use crate::cell::{Cell, Direction};

verus! {

/// The mathematical content of a board: its dimensions and its cells in
/// row-major order, `x` varying fastest.
pub struct Grid {
    pub width: nat,
    pub height: nat,
    pub cells: Seq<Cell>,
}

/// Whether two cells share a side.
pub open spec fn adjacent(a: (usize, usize), b: (usize, usize)) -> bool {
    ||| a.0 == b.0 && (a.1 + 1 == b.1 || b.1 + 1 == a.1)
    ||| a.1 == b.1 && (a.0 + 1 == b.0 || b.0 + 1 == a.0)
}

impl Grid {
    /// There is exactly one cell per position, and no more cells than a
    /// machine word can count.
    pub open spec fn wf(self) -> bool {
        self.cells.len() == self.width * self.height && self.cells.len() <= usize::MAX
    }

    /// A grid of the given dimensions with every cell empty.
    pub open spec fn blank(width: nat, height: nat) -> Grid {
        Grid { width, height, cells: Seq::new(width * height, |i: int| Cell::Empty) }
    }

    /// Whether `pos` names a cell of the grid.
    pub open spec fn contains(self, pos: (usize, usize)) -> bool {
        pos.0 < self.width && pos.1 < self.height
    }

    /// The place of `pos` in the row-major cell sequence.
    pub open spec fn offset(self, pos: (usize, usize)) -> int {
        pos.0 + self.width * pos.1
    }

    /// The position stored at place `index` of the cell sequence.
    pub open spec fn position(self, index: int) -> (int, int) {
        (index % (self.width as int), index / (self.width as int))
    }

    /// The cell at `pos`.
    pub open spec fn at(self, pos: (usize, usize)) -> Cell
        recommends
            self.wf(),
            self.contains(pos),
    {
        self.cells[self.offset(pos)]
    }

    /// Whether `pos` names an empty cell of the grid.
    pub open spec fn is_free(self, pos: (usize, usize)) -> bool {
        self.contains(pos) && self.at(pos) == Cell::Empty
    }

    /// No cell of the grid is empty.
    pub open spec fn full(self) -> bool {
        forall|pos: (usize, usize)| self.contains(pos) ==> #[trigger] self.at(pos) != Cell::Empty
    }

    /// Whether `index` is the place of an empty cell in the cell sequence.
    pub open spec fn is_free_index(self, index: usize) -> bool {
        index < self.cells.len() && self.cells[index as int] == Cell::Empty
    }

    /// The places of the empty cells in the cell sequence, in increasing
    /// order.
    pub open spec fn free_indices(self) -> Seq<usize> {
        Seq::new(self.cells.len(), |i: int| i as usize).filter(|i: usize| self.is_free_index(i))
    }

    /// The position one step from `pos` in `direction`, or `None` where
    /// that step would leave the grid. `Up` raises `y`, `Right` raises `x`.
    pub open spec fn neighbour(self, pos: (usize, usize), direction: Direction) -> Option<
        (usize, usize),
    > {
        match direction {
            Direction::Up => if pos.1 + 1 == self.height {
                None
            } else {
                Some((pos.0, (pos.1 + 1) as usize))
            },
            Direction::Down => if pos.1 == 0 {
                None
            } else {
                Some((pos.0, (pos.1 - 1) as usize))
            },
            Direction::Right => if pos.0 + 1 == self.width {
                None
            } else {
                Some(((pos.0 + 1) as usize, pos.1))
            },
            Direction::Left => if pos.0 == 0 {
                None
            } else {
                Some(((pos.0 - 1) as usize, pos.1))
            },
        }
    }

    /// Row `y` as text: each of its cells from left to right, drawn with
    /// its character and followed by a space.
    pub open spec fn row_text(self, y: int) -> Seq<char> {
        Seq::new(
            2 * self.width,
            |k: int|
                if k % 2 == 0 {
                    self.cells[self.width * y + k / 2].glyph_spec()
                } else {
                    ' '
                },
        )
    }

    /// The lowest `rows` rows as text, the highest of them first, each
    /// behind a line break.
    pub open spec fn rows_text(self, rows: nat) -> Seq<char>
        decreases rows,
    {
        if rows == 0 {
            Seq::empty()
        } else {
            seq!['\n'] + self.row_text(rows - 1) + self.rows_text((rows - 1) as nat)
        }
    }

    /// The grid as text: all rows from the top one down, and a line break
    /// at the end.
    pub open spec fn text(self) -> Seq<char> {
        self.rows_text(self.height).push('\n')
    }

    /// The grid with the cell at `pos` replaced by `cell`.
    pub open spec fn put(self, pos: (usize, usize), cell: Cell) -> Grid
        recommends
            self.wf(),
            self.contains(pos),
    {
        Grid { cells: self.cells.update(self.offset(pos), cell), ..self }
    }
}

/// Inside a well-formed grid the offset of a position is a valid index,
/// and turning it back into a position gives the position again.
pub proof fn lemma_offset_in_range(g: Grid, pos: (usize, usize))
    requires
        g.wf(),
        g.contains(pos),
    ensures
        0 <= g.width * pos.1 <= g.offset(pos) < g.cells.len(),
        g.position(g.offset(pos)) == (pos.0 as int, pos.1 as int),
{
    let w = g.width as int;
    let h = g.height as int;
    let x = pos.0 as int;
    let y = pos.1 as int;
    assert(x + w * y < w * h) by (nonlinear_arith)
        requires
            0 <= x < w,
            0 <= y < h,
    ;
    assert(w * y >= 0) by (nonlinear_arith)
        requires
            w >= 0,
            y >= 0,
    ;
    assert((x + w * y) % w == x && (x + w * y) / w == y) by (nonlinear_arith)
        requires
            0 <= x < w,
            0 <= y,
    ;
}

/// Inside a well-formed grid every index of the cell sequence is the
/// offset of exactly one position, the one `position` computes.
pub proof fn lemma_position_in_range(g: Grid, index: int)
    requires
        g.wf(),
        0 <= index < g.cells.len(),
    ensures
        0 <= g.position(index).0 < g.width,
        0 <= g.position(index).1 < g.height,
        g.position(index).0 + g.width * g.position(index).1 == index,
{
    let w = g.width as int;
    let h = g.height as int;
    assert(w > 0) by (nonlinear_arith)
        requires
            0 <= index < w * h,
            w >= 0,
            h >= 0,
    ;
    assert(0 <= index % w < w && index / w >= 0 && index % w + w * (index / w) == index)
        by (nonlinear_arith)
        requires
            w > 0,
            index >= 0,
    ;
    assert(index / w < h) by (nonlinear_arith)
        requires
            w > 0,
            0 <= index < w * h,
    ;
}

/// Replacing one cell changes that cell and no other, and keeps the shape
/// of the grid.
pub proof fn lemma_put(g: Grid, at: (usize, usize), cell: Cell)
    requires
        g.wf(),
        g.contains(at),
    ensures
        g.put(at, cell).wf(),
        g.put(at, cell).width == g.width,
        g.put(at, cell).height == g.height,
        g.put(at, cell).at(at) == cell,
        forall|pos: (usize, usize)|
            g.contains(pos) && pos != at ==> #[trigger] g.put(at, cell).at(pos) == g.at(pos),
{
    lemma_offset_in_range(g, at);
    assert forall|pos: (usize, usize)| g.contains(pos) && pos != at implies #[trigger] g.put(
        at,
        cell,
    ).at(pos) == g.at(pos) by {
        lemma_offset_in_range(g, pos);
    }
}

/// Every cell of a blank grid is empty.
pub proof fn lemma_blank(width: nat, height: nat)
    requires
        width * height <= usize::MAX,
    ensures
        Grid::blank(width, height).wf(),
        forall|pos: (usize, usize)|
            Grid::blank(width, height).contains(pos) ==> #[trigger] Grid::blank(width, height).at(
                pos,
            ) == Cell::Empty,
{
    let g = Grid::blank(width, height);
    assert forall|pos: (usize, usize)| g.contains(pos) implies #[trigger] g.at(pos)
        == Cell::Empty by {
        lemma_offset_in_range(g, pos);
    }
}

/// A step from a cell of the grid ends, unless the wall is in the way, on a
/// cell of the grid that shares a side with the first.
pub proof fn lemma_neighbour(g: Grid, pos: (usize, usize), direction: Direction)
    requires
        g.wf(),
        g.contains(pos),
        g.neighbour(pos, direction) is Some,
    ensures
        g.contains(g.neighbour(pos, direction)->Some_0),
        adjacent(g.neighbour(pos, direction)->Some_0, pos),
{
    let w = g.width as int;
    let h = g.height as int;
    assert(w <= usize::MAX && h <= usize::MAX) by (nonlinear_arith)
        requires
            w >= 1,
            h >= 1,
            w * h <= usize::MAX,
    ;
}

/// An index is listed among the free ones exactly when its cell is empty.
pub proof fn lemma_free_indices(g: Grid, index: usize)
    ensures
        g.free_indices().contains(index) <==> g.is_free_index(index),
        g.is_free_index(index) ==> g.free_indices().len() > 0,
{
    let all = Seq::new(g.cells.len(), |i: int| i as usize);
    let keep = |i: usize| g.is_free_index(i);
    if g.free_indices().contains(index) {
        let k = choose|k: int| 0 <= k < g.free_indices().len() && g.free_indices()[k] == index;
        all.lemma_filter_pred(keep, k);
    }
    if g.is_free_index(index) {
        assert(all[index as int] == index);
        all.lemma_filter_contains(keep, index as int);
    }
}

/// A grid is full exactly when no index is listed among the free ones.
pub proof fn lemma_full(g: Grid)
    requires
        g.wf(),
    ensures
        g.full() <==> g.free_indices().len() == 0,
{
    if g.free_indices().len() > 0 {
        let index = g.free_indices()[0];
        assert(g.free_indices().contains(index));
        lemma_free_indices(g, index);
        lemma_position_in_range(g, index as int);
        let pos = (g.position(index as int).0 as usize, g.position(index as int).1 as usize);
        assert(g.contains(pos) && g.at(pos) == Cell::Empty);
    }
    if !g.full() {
        let pos = choose|pos: (usize, usize)| g.contains(pos) && g.at(pos) == Cell::Empty;
        lemma_offset_in_range(g, pos);
        lemma_free_indices(g, g.offset(pos) as usize);
    }
}

/// A rectangular board of cells.
#[derive(Debug)]
pub struct Board {
    board: Vec<Cell>,
    width: usize,
    height: usize,
}

impl View for Board {
    type V = Grid;

    closed spec fn view(&self) -> Grid {
        Grid { width: self.width as nat, height: self.height as nat, cells: self.board@ }
    }
}

impl Clone for Board {
    fn clone(&self) -> (copy: Self)
        ensures
            copy@ == self@,
    {
        proof {
            use_type_invariant(self);
        }
        let cells = self.board.clone();
        assert(cells@ =~= self.board@);
        Board { board: cells, width: self.width, height: self.height }
    }
}

impl core::ops::Index<(usize, usize)> for Board {
    type Output = Cell;

    /// The cell at `index`, which must lie on the board.
    fn index(&self, index: (usize, usize)) -> (cell: &Cell)
        ensures
            *cell == self@.at(index),
    {
        proof {
            use_type_invariant(self);
            lemma_offset_in_range(self@, index);
        }
        &self.board[index.0 + self.width * index.1]
    }
}

impl vstd::std_specs::core::IndexSpecImpl<(usize, usize)> for Board {
    open spec fn index_req(&self, index: &(usize, usize)) -> bool {
        self@.contains(*index)
    }
}

impl core::ops::IndexMut<(usize, usize)> for Board {
    /// The cell at `index`, which must lie on the board, to be replaced.
    fn index_mut(&mut self, index: (usize, usize)) -> (cell: &mut Cell)
        requires
            old(self)@.contains(index),
        ensures
            *cell == old(self)@.at(index),
            final(self)@ == old(self)@.put(index, *final(cell)),
    {
        proof {
            use_type_invariant(&*self);
            lemma_offset_in_range(self@, index);
        }
        let w: usize = self.width;
        &mut self.board[index.0 + w * index.1]
    }
}

impl core::ops::Index<usize> for Board {
    type Output = Cell;

    /// The cell at place `index` of the row-major order.
    fn index(&self, index: usize) -> (cell: &Cell)
        ensures
            *cell == self@.cells[index as int],
    {
        &self.board[index]
    }
}

impl vstd::std_specs::core::IndexSpecImpl<usize> for Board {
    open spec fn index_req(&self, index: &usize) -> bool {
        *index < self@.cells.len()
    }
}

impl core::ops::IndexMut<usize> for Board {
    /// The cell at place `index` of the row-major order, to be replaced.
    fn index_mut(&mut self, index: usize) -> (cell: &mut Cell)
        requires
            index < old(self)@.cells.len(),
        ensures
            *cell == old(self)@.cells[index as int],
            final(self)@ == (Grid {
                cells: old(self)@.cells.update(index as int, *final(cell)),
                ..old(self)@
            }),
    {
        proof {
            use_type_invariant(&*self);
        }
        &mut self.board[index]
    }
}

impl Board {
    #[verifier::type_invariant]
    spec fn inv(self) -> bool {
        self.board@.len() == self.width * self.height && self.width * self.height <= usize::MAX
    }

    /// Makes a board of `width` by `height` cells, all of them empty.
    #[must_use]
    pub fn new(width: usize, height: usize) -> (board: Self)
        requires
            width > 0,
            height > 0,
            width * height <= usize::MAX,
        ensures
            board@ == Grid::blank(width as nat, height as nat),
            board@.wf(),
    {
        let cells = vec![Cell::default(); width * height];
        assert(cells@ =~= Seq::new((width * height) as nat, |i: int| Cell::Empty));
        Board { board: cells, width, height }
    }

    /// The dimensions, width first.
    #[must_use]
    pub fn size(&self) -> (size: (usize, usize))
        ensures
            size.0 == self@.width,
            size.1 == self@.height,
            self@.wf(),
    {
        proof {
            use_type_invariant(self);
        }
        (self.width, self.height)
    }

    /// The number of columns.
    #[must_use]
    pub fn width(&self) -> (width: usize)
        ensures
            width == self@.width,
            self@.wf(),
    {
        proof {
            use_type_invariant(self);
        }
        self.width
    }

    /// The number of rows.
    #[must_use]
    pub fn height(&self) -> (height: usize)
        ensures
            height == self@.height,
            self@.wf(),
    {
        proof {
            use_type_invariant(self);
        }
        self.height
    }

    /// The cells in row-major order.
    #[must_use]
    pub fn vec(&self) -> (cells: &Vec<Cell>)
        ensures
            cells@ == self@.cells,
            self@.wf(),
    {
        proof {
            use_type_invariant(self);
        }
        &self.board
    }

    /// Gives up the board for its cells in row-major order.
    #[must_use]
    pub fn into_inner(self) -> (cells: Vec<Cell>)
        ensures
            cells@ == self@.cells,
            self@.wf(),
    {
        proof {
            use_type_invariant(&self);
        }
        self.board
    }

    /// The cell at `pos`, which must lie on the board.
    pub fn get(&self, pos: (usize, usize)) -> (cell: Cell)
        requires
            self@.contains(pos),
        ensures
            cell == self@.at(pos),
            self@.wf(),
    {
        proof {
            use_type_invariant(self);
            lemma_offset_in_range(self@, pos);
        }
        self.board[pos.0 + self.width * pos.1]
    }

    /// Replaces the cell at `pos`, which must lie on the board.
    pub fn set(&mut self, pos: (usize, usize), cell: Cell)
        requires
            old(self)@.contains(pos),
        ensures
            final(self)@ == old(self)@.put(pos, cell),
            final(self)@.wf(),
    {
        proof {
            use_type_invariant(&*self);
            lemma_offset_in_range(self@, pos);
        }
        let w: usize = self.width;
        self.board[pos.0 + w * pos.1] = cell;
    }

    /// The position whose cell is stored at place `index` of the row-major
    /// order: `x` is the remainder by the width, `y` the quotient.
    pub fn position(&self, index: usize) -> (pos: (usize, usize))
        requires
            index < self@.cells.len(),
        ensures
            pos.0 == (index as int) % (self@.width as int),
            pos.1 == (index as int) / (self@.width as int),
            self@.contains(pos),
            self@.offset(pos) == index,
    {
        proof {
            use_type_invariant(self);
            lemma_position_in_range(self@, index as int);
        }
        (index % self.width, index / self.width)
    }

    /// The position one step from `pos` in `direction`, or `None` where
    /// that step would run into the wall.
    pub fn neighbour(&self, pos: (usize, usize), direction: Direction) -> (next: Option<
        (usize, usize),
    >)
        requires
            self@.contains(pos),
        ensures
            next == self@.neighbour(pos, direction),
            next is Some ==> self@.contains(next->Some_0),
    {
        match direction {
            Direction::Up => if pos.1 + 1 == self.height {
                None
            } else {
                Some((pos.0, pos.1 + 1))
            },
            Direction::Down => if pos.1 == 0 {
                None
            } else {
                Some((pos.0, pos.1 - 1))
            },
            Direction::Right => if pos.0 + 1 == self.width {
                None
            } else {
                Some((pos.0 + 1, pos.1))
            },
            Direction::Left => if pos.0 == 0 {
                None
            } else {
                Some((pos.0 - 1, pos.1))
            },
        }
    }

    /// The places of the empty cells in the row-major order, in increasing
    /// order.
    pub fn empty_cells(&self) -> (free: Vec<usize>)
        ensures
            free@ == self@.free_indices(),
            free@.len() == 0 <==> self@.full(),
    {
        proof {
            use_type_invariant(self);
            lemma_full(self@);
        }
        let ghost grid = self@;
        let ghost keep = |i: usize| grid.is_free_index(i);
        let mut free: Vec<usize> = Vec::new();
        let n: usize = self.board.len();
        let mut i: usize = 0;
        while i < n
            invariant
                i <= n,
                n == self.board@.len(),
                grid == self@,
                keep == |i: usize| grid.is_free_index(i),
                free@ == Seq::new(i as nat, |k: int| k as usize).filter(keep),
            decreases n - i,
        {
            let ghost before = Seq::new(i as nat, |k: int| k as usize);
            let ghost after = Seq::new((i + 1) as nat, |k: int| k as usize);
            proof {
                assert(after.drop_last() =~= before);
                assert(after.last() == i);
                reveal_with_fuel(Seq::filter, 2);
            }
            if self.board[i] == Cell::Empty {
                free.push(i);
            }
            i += 1;
        }
        assert(Seq::new(n as nat, |k: int| k as usize) =~= Seq::new(
            grid.cells.len(),
            |k: int| k as usize,
        ));
        free
    }

    /// The board as text for a terminal: one line per row, the top row
    /// (the one with the highest `y`) first.
    pub fn render(&self) -> (text: String)
        ensures
            text@ == self@.text(),
    {
        proof {
            use_type_invariant(self);
            reveal_strlit("\n");
            reveal_strlit(" ");
        }
        let ghost grid = self@;
        let mut out = String::new();
        let mut y: usize = self.height;
        while y > 0
            invariant
                y <= self.height,
                grid == self@,
                grid.wf(),
                "\n"@ == seq!['\n'],
                " "@ == seq![' '],
                out@ + grid.rows_text(y as nat) == grid.rows_text(grid.height),
            decreases y,
        {
            let ghost done = out@;
            y -= 1;
            out.append("\n");
            let mut x: usize = 0;
            while x < self.width
                invariant
                    x <= self.width,
                    y < self.height,
                    grid == self@,
                    grid.wf(),
                    " "@ == seq![' '],
                    out@ == done + seq!['\n'] + grid.row_text(y as int).subrange(0, 2 * x),
                decreases self.width - x,
            {
                proof {
                    lemma_offset_in_range(grid, (x, y));
                }
                out.append(self.board[x + self.width * y].glyph());
                out.append(" ");
                x += 1;
                assert(out@ =~= done + seq!['\n'] + grid.row_text(y as int).subrange(0, 2 * x));
            }
            assert(grid.row_text(y as int).subrange(0, 2 * x) =~= grid.row_text(y as int));
            assert(out@ + grid.rows_text(y as nat) =~= done + grid.rows_text((y + 1) as nat));
        }
        out.append("\n");
        assert(out@ =~= grid.text());
        out
    }

    /// The cell at place `index` of the row-major order.
    pub fn get_linear(&self, index: usize) -> (cell: Cell)
        requires
            index < self@.cells.len(),
        ensures
            cell == self@.cells[index as int],
            self@.wf(),
    {
        proof {
            use_type_invariant(self);
        }
        self.board[index]
    }

    /// Replaces the cell at place `index` of the row-major order.
    pub fn set_linear(&mut self, index: usize, cell: Cell)
        requires
            index < old(self)@.cells.len(),
        ensures
            final(self)@ == (Grid { cells: old(self)@.cells.update(index as int, cell), ..old(self)@ }),
            final(self)@.wf(),
    {
        proof {
            use_type_invariant(&*self);
        }
        self.board[index] = cell;
    }
}

} // verus!
