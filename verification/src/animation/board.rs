//! The grid of cells that every simulation runs on.

use vstd::prelude::*;

verus! {

/// Palette index of a cell nobody owns.
pub const EMPTY: u8 = 0;

/// Palette index of a challenger cell; the colour of the single population.
pub const CHALLENGER: u8 = 1;

/// Palette index of a defender cell.
pub const DEFENDER: u8 = 2;

/// What a board is: its dimensions and its cells in row-major order.
pub struct BoardView {
    pub width: nat,
    pub height: nat,
    pub cells: Seq<u8>,
}

impl BoardView {
    /// There is exactly one cell for each position.
    pub open spec fn wf(self) -> bool {
        self.cells.len() == self.width * self.height
    }

    /// Whether `(x, y)` is a position of the board.
    pub open spec fn contains(self, x: int, y: int) -> bool {
        0 <= x < self.width && 0 <= y < self.height
    }

    /// The cell in column `x` of row `y`.
    pub open spec fn at(self, x: int, y: int) -> u8
        recommends
            self.contains(x, y),
    {
        self.cells[y * self.width + x]
    }

    /// 1 if `(x, y)` is on the board and holds `color`, else 0. Positions
    /// beyond an edge hold nothing: the board does not wrap around.
    pub open spec fn holds(self, x: int, y: int, color: u8) -> int {
        if self.contains(x, y) && self.at(x, y) == color {
            1
        } else {
            0
        }
    }

    /// How many of the up to eight cells around `(x, y)` hold `color`.
    pub open spec fn neighbors(self, x: int, y: int, color: u8) -> int {
        self.holds(x - 1, y - 1, color) + self.holds(x, y - 1, color) + self.holds(
            x + 1,
            y - 1,
            color,
        ) + self.holds(x - 1, y, color) + self.holds(x + 1, y, color) + self.holds(
            x - 1,
            y + 1,
            color,
        ) + self.holds(x, y + 1, color) + self.holds(x + 1, y + 1, color)
    }
}

/// `upper` with `lower` set below it: the last row of `upper` and the first
/// row of `lower` become neighbours. This seam is the only place where the
/// two meet; nothing wraps around.
pub open spec fn stacked(upper: BoardView, lower: BoardView) -> BoardView {
    BoardView {
        width: upper.width,
        height: upper.height + lower.height,
        cells: upper.cells + lower.cells,
    }
}

/// Whether every cell is one of the three palette indices.
pub open spec fn within_palette(cells: Seq<u8>) -> bool {
    forall|i: int| 0 <= i < cells.len() ==> cells[i] <= DEFENDER
}

/// Row-major positions stay inside the cell vector.
pub proof fn lemma_position_in_range(x: int, y: int, width: int, height: int)
    by (nonlinear_arith)
    requires
        0 <= x < width,
        0 <= y < height,
    ensures
        0 <= y * width + x < width * height,
{
}

/// A row-major index determines its column and row.
pub proof fn lemma_position_of_index(x: int, y: int, width: int)
    requires
        0 <= x < width,
        0 <= y,
    ensures
        (y * width + x) % width == x,
        (y * width + x) / width == y,
{
    vstd::arithmetic::div_mod::lemma_fundamental_div_mod_converse(y * width + x, width, y, x);
}

/// A cell has at most eight neighbours of one colour, and of all colours
/// together. At an edge of the board there are at most five and in a corner
/// at most three, because the board does not wrap around.
pub proof fn lemma_neighbors_bounded(board: BoardView, x: int, y: int, color: u8, other: u8)
    requires
        color != other,
    ensures
        0 <= board.neighbors(x, y, color) <= 8,
        board.neighbors(x, y, color) + board.neighbors(x, y, other) <= 8,
        x == 0 || y == 0 || x == board.width - 1 || y == board.height - 1 ==> board.neighbors(
            x,
            y,
            color,
        ) + board.neighbors(x, y, other) <= 5,
        (x == 0 || x == board.width - 1) && (y == 0 || y == board.height - 1) ==> board.neighbors(
            x,
            y,
            color,
        ) + board.neighbors(x, y, other) <= 3,
{
}

/// The rows of a stacked board are the rows of `upper`, then the rows of
/// `lower`: a cell in the last row of `upper` and a cell in the first row of
/// `lower` are one row apart, and no other rows of the two are.
pub proof fn lemma_stacked_rows(upper: BoardView, lower: BoardView, x: int, y: int)
    requires
        upper.wf(),
        lower.wf(),
        upper.width == lower.width,
        stacked(upper, lower).contains(x, y),
    ensures
        stacked(upper, lower).wf(),
        stacked(upper, lower).at(x, y) == if y < upper.height {
            upper.at(x, y)
        } else {
            lower.at(x, y - upper.height)
        },
{
    let width = upper.width as int;
    assert(stacked(upper, lower).wf()) by (nonlinear_arith)
        requires
            stacked(upper, lower).cells.len() == upper.width * upper.height + upper.width
                * lower.height,
            stacked(upper, lower).width == upper.width,
            stacked(upper, lower).height == upper.height + lower.height,
    ;
    if y < upper.height {
        lemma_position_in_range(x, y, width, upper.height as int);
    } else {
        lemma_position_in_range(x, y - upper.height, width, lower.height as int);
        assert(y * width + x - width * upper.height == (y - upper.height) * width + x)
            by (nonlinear_arith);
        assert(y * width + x >= width * upper.height) by (nonlinear_arith)
            requires
                y >= upper.height,
                x >= 0,
                width >= 0,
        ;
    }
}

/// How many of `cells` hold `color`.
pub open spec fn count_of(cells: Seq<u8>, color: u8) -> nat
    decreases cells.len(),
{
    if cells.len() == 0 {
        0
    } else {
        count_of(cells.drop_last(), color) + if cells.last() == color {
            1nat
        } else {
            0nat
        }
    }
}

/// No more cells hold a colour than there are cells.
pub proof fn lemma_count_of_bound(cells: Seq<u8>, color: u8)
    ensures
        count_of(cells, color) <= cells.len(),
    decreases cells.len(),
{
    if cells.len() > 0 {
        lemma_count_of_bound(cells.drop_last(), color);
    }
}

/// Where every cell holds `value`, all of them count for `value` and none
/// for any other colour.
pub proof fn lemma_count_of_uniform(cells: Seq<u8>, value: u8, color: u8)
    requires
        forall|i: int| 0 <= i < cells.len() ==> cells[i] == value,
    ensures
        count_of(cells, color) == if color == value {
            cells.len()
        } else {
            0
        },
    decreases cells.len(),
{
    if cells.len() > 0 {
        lemma_count_of_uniform(cells.drop_last(), value, color);
    }
}

/// A rectangular board of palette indices.
pub struct Board {
    width: usize,
    height: usize,
    cells: Vec<u8>,
}

impl View for Board {
    type V = BoardView;

    closed spec fn view(&self) -> BoardView {
        BoardView { width: self.width as nat, height: self.height as nat, cells: self.cells@ }
    }
}

impl Board {
    #[verifier::type_invariant]
    pub open spec fn well_formed(self) -> bool {
        self@.wf()
    }

    /// A board of the given dimensions, if `cells` holds one value for each
    /// position, row after row.
    pub fn new(width: usize, height: usize, cells: Vec<u8>) -> (board: Option<Board>)
        ensures
            board is Some <==> cells@.len() == width * height,
            board matches Some(b) ==> b@ == (BoardView {
                width: width as nat,
                height: height as nat,
                cells: cells@,
            }),
    {
        let len: usize = cells.len();
        match width.checked_mul(height) {
            Some(size) => {
                if len == size {
                    Some(Board { width, height, cells })
                } else {
                    None
                }
            },
            None => None,
        }
    }

    /// `upper` with `lower` set below it, where both are equally wide (and
    /// the rows of both can be counted).
    pub fn stack(upper: Board, lower: Board) -> (board: Option<Board>)
        ensures
            board is Some <==> upper@.width == lower@.width && upper@.height + lower@.height
                <= usize::MAX,
            board matches Some(b) ==> b@ == stacked(upper@, lower@),
    {
        proof {
            use_type_invariant(&upper);
            use_type_invariant(&lower);
        }
        if upper.width != lower.width {
            return None;
        }
        match upper.height.checked_add(lower.height) {
            Some(height) => {
                let width: usize = upper.width;
                let mut cells: Vec<u8> = upper.cells;
                let mut rest: Vec<u8> = lower.cells;
                cells.append(&mut rest);
                assert(width * upper.height + width * lower.height == width * height)
                    by (nonlinear_arith)
                    requires
                        height == upper.height + lower.height,
                ;
                Some(Board { width, height, cells })
            },
            None => None,
        }
    }

    pub fn width(&self) -> (width: usize)
        ensures
            width == self@.width,
    {
        self.width
    }

    pub fn height(&self) -> (height: usize)
        ensures
            height == self@.height,
    {
        self.height
    }

    /// The cells, row after row.
    pub fn cells(&self) -> (cells: &Vec<u8>)
        ensures
            cells@ == self@.cells,
    {
        &self.cells
    }

    /// The cell in column `x` of row `y`.
    pub fn get(&self, x: usize, y: usize) -> (cell: u8)
        requires
            self@.contains(x as int, y as int),
        ensures
            cell == self@.at(x as int, y as int),
    {
        proof {
            use_type_invariant(self);
            lemma_position_in_range(x as int, y as int, self.width as int, self.height as int);
        }
        assert(self.cells.len() == self.width * self.height);
        self.cells[y * self.width + x]
    }

    /// How many cells of the board hold `color`.
    pub fn count(&self, color: u8) -> (count: usize)
        ensures
            count == count_of(self@.cells, color),
    {
        let mut count: usize = 0;
        let mut i: usize = 0;
        while i < self.cells.len()
            invariant
                i <= self.cells.len(),
                count == count_of(self.cells@.take(i as int), color),
                count <= i,
            decreases self.cells.len() - i,
        {
            assert(self.cells@.take(i + 1).drop_last() =~= self.cells@.take(i as int));
            if self.cells[i] == color {
                count += 1;
            }
            i += 1;
        }
        assert(self.cells@.take(i as int) =~= self.cells@);
        count
    }

    /// How many of the cells around `(x, y)` hold `color`. Neighbours beyond
    /// an edge do not exist and are not counted.
    pub fn count_neighbors(&self, x: usize, y: usize, color: u8) -> (count: u8)
        requires
            self@.contains(x as int, y as int),
        ensures
            count == self@.neighbors(x as int, y as int, color),
            count <= 8,
    {
        let width: usize = self.width;
        let height: usize = self.height;
        let mut count: u8 = 0;
        if x >= 1 && self.get(x - 1, y) == color {
            count += 1;
        }
        if x + 1 < width && self.get(x + 1, y) == color {
            count += 1;
        }
        if y >= 1 && self.get(x, y - 1) == color {
            count += 1;
        }
        if y + 1 < height && self.get(x, y + 1) == color {
            count += 1;
        }
        if x >= 1 && y >= 1 && self.get(x - 1, y - 1) == color {
            count += 1;
        }
        if x >= 1 && y + 1 < height && self.get(x - 1, y + 1) == color {
            count += 1;
        }
        if x + 1 < width && y >= 1 && self.get(x + 1, y - 1) == color {
            count += 1;
        }
        if x + 1 < width && y + 1 < height && self.get(x + 1, y + 1) == color {
            count += 1;
        }
        count
    }
}

} // verus!
