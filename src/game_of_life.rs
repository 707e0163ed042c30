//! Conway's game of life on the LED matrix, wrapping at the edges.

use vstd::prelude::*;
use crate::control::GameOfLifeStartParam;
use crate::matrix::{Grid, HEIGHT, WIDTH};

verus! {

/// State of one cell.
#[derive(Clone, Copy, Debug, PartialEq, Eq, Structural)]
pub enum Cell {
    Dead,
    Alive,
}

/// 1 for a live cell, 0 for a dead one.
pub open spec fn alive(c: Cell) -> nat {
    if c == Cell::Alive {
        1
    } else {
        0
    }
}

/// The cells, by row then column.
#[derive(Clone, Copy)]
pub struct GameOfLifeState {
    cells: [[Cell; WIDTH]; HEIGHT],
}

/// The cell at `(row, col)`, with both wrapped around the matrix.
pub open spec fn wrapped(s: GameOfLifeState, row: int, col: int) -> Cell {
    s.cell(row % HEIGHT as int, col % WIDTH as int)
}

/// Number of live cells among the eight around `(row, col)`, wrapping at
/// the edges.
pub open spec fn neighbors(s: GameOfLifeState, row: int, col: int) -> nat {
    let up = row + HEIGHT - 1;
    let down = row + 1;
    let left = col + WIDTH - 1;
    let right = col + 1;
    alive(wrapped(s, up, left)) + alive(wrapped(s, up, col)) + alive(wrapped(s, up, right)) + alive(
        wrapped(s, row, left),
    ) + alive(wrapped(s, row, right)) + alive(wrapped(s, down, left)) + alive(
        wrapped(s, down, col),
    ) + alive(wrapped(s, down, right))
}

/// The next state of a cell with `n` live neighbours: a live cell survives
/// with 2 or 3, a dead one comes alive with exactly 3.
pub open spec fn next_cell(c: Cell, n: nat) -> Cell {
    if c == Cell::Alive {
        if n == 2 || n == 3 {
            Cell::Alive
        } else {
            Cell::Dead
        }
    } else if n == 3 {
        Cell::Alive
    } else {
        Cell::Dead
    }
}

/// The cell for a start pattern that marks `(row, col)` as alive when `on`.
pub open spec fn cell_if(on: bool) -> Cell {
    if on {
        Cell::Alive
    } else {
        Cell::Dead
    }
}

/// Live cells of the dense start pattern: those whose column-major index is
/// a multiple of 2 or of 7.
pub open spec fn pattern1_alive(row: int, col: int) -> bool {
    (col * HEIGHT + row) % 2 == 0 || (col * HEIGHT + row) % 7 == 0
}

/// Live cells of the two blinkers.
pub open spec fn blinker_alive(row: int, col: int) -> bool {
    (row == 4 || row == 8) && 5 <= col <= 7
}

/// Live cells of the toad.
pub open spec fn toad_alive(row: int, col: int) -> bool {
    (row == 17 && 4 <= col <= 6) || (row == 18 && 5 <= col <= 7)
}

/// Live cells of the beacon.
pub open spec fn beacon_alive(row: int, col: int) -> bool {
    ((row == 26 || row == 27) && (col == 4 || col == 5)) || ((row == 28 || row == 29) && (col == 6
        || col == 7))
}

/// Live cells of the two gliders.
pub open spec fn glider_alive(row: int, col: int) -> bool {
    (row == 2 && col == 3) || (row == 3 && col == 4) || (row == 4 && 2 <= col <= 4) || (row == 20
        && col == 5) || (row == 21 && col == 6) || (row == 22 && 4 <= col <= 6)
}

/// Live cells of a start parameter (not the current matrix).
pub open spec fn start_alive(p: GameOfLifeStartParam, row: int, col: int) -> bool {
    match p {
        GameOfLifeStartParam::Pattern1 => pattern1_alive(row, col),
        GameOfLifeStartParam::Blinker => blinker_alive(row, col),
        GameOfLifeStartParam::Toad => toad_alive(row, col),
        GameOfLifeStartParam::Beacon => beacon_alive(row, col),
        GameOfLifeStartParam::Glider => glider_alive(row, col),
        GameOfLifeStartParam::BeaconToadBlinker => beacon_alive(row, col) || toad_alive(row, col)
            || blinker_alive(row, col),
        GameOfLifeStartParam::CurrentMatrix => false,
    }
}

/// `(row, col)` lies on the matrix.
pub open spec fn on_matrix(row: int, col: int) -> bool {
    0 <= row < HEIGHT && 0 <= col < WIDTH
}

/// Stepping around `a % n` wraps as stepping around `a` does.
proof fn lemma_wrap_reduced(a: int, n: int)
    requires
        a >= 0,
        n > 1,
    ensures
        ((a % n) + n - 1) % n == (a + n - 1) % n,
        ((a % n) + 1) % n == (a + 1) % n,
        (a % n) % n == a % n,
{
    vstd::arithmetic::div_mod::lemma_add_mod_noop(a, n - 1, n);
    vstd::arithmetic::div_mod::lemma_add_mod_noop(a, 1, n);
    vstd::arithmetic::div_mod::lemma_mod_twice(a, n);
    vstd::arithmetic::div_mod::lemma_small_mod((n - 1) as nat, n as nat);
    vstd::arithmetic::div_mod::lemma_small_mod(1, n as nat);
}

/// All cells dead.
fn dead_cells() -> (r: [[Cell; WIDTH]; HEIGHT])
    ensures
        forall|row: int, col: int| on_matrix(row, col) ==> r[row][col] == Cell::Dead,
{
    [[Cell::Dead; WIDTH]; HEIGHT]
}

/// Sets the cell at `(row, col)` alive.
fn set_alive(cells: &mut [[Cell; WIDTH]; HEIGHT], row: usize, col: usize)
    requires
        row < HEIGHT,
        col < WIDTH,
    ensures
        forall|r: int, c: int|
            on_matrix(r, c) ==> final(cells)[r][c] == if r == row && c == col {
                Cell::Alive
            } else {
                old(cells)[r][c]
            },
{
    let mut line = cells[row];
    line[col] = Cell::Alive;
    cells[row] = line;
}

impl GameOfLifeState {
    /// The cell at `(row, col)`.
    pub closed spec fn cell(&self, row: int, col: int) -> Cell {
        self.cells[row][col]
    }

    /// Every cell alive in either state.
    pub fn combine(&self, other: &Self) -> (r: Self)
        ensures
            forall|row: int, col: int|
                on_matrix(row, col) ==> r.cell(row, col) == if other.cell(row, col) == Cell::Alive {
                    Cell::Alive
                } else {
                    self.cell(row, col)
                },
    {
        let mut cells = self.cells;
        let mut row: usize = 0;
        while row < HEIGHT
            invariant
                row <= HEIGHT,
                forall|r: int, c: int|
                    on_matrix(r, c) ==> cells[r][c] == if r < row && other.cells[r][c]
                        == Cell::Alive {
                        Cell::Alive
                    } else {
                        self.cells[r][c]
                    },
            decreases HEIGHT - row,
        {
            let mut col: usize = 0;
            while col < WIDTH
                invariant
                    row < HEIGHT,
                    col <= WIDTH,
                    forall|r: int, c: int|
                        on_matrix(r, c) ==> cells[r][c] == if (r < row || (r == row && c < col))
                            && other.cells[r][c] == Cell::Alive {
                            Cell::Alive
                        } else {
                            self.cells[r][c]
                        },
                decreases WIDTH - col,
            {
                if other.cells[row][col] == Cell::Alive {
                    set_alive(&mut cells, row, col);
                }
                col = col + 1;
            }
            row = row + 1;
        }
        GameOfLifeState { cells }
    }

    /// The start state for `param`; `grid` gives the live cells (any
    /// non-zero LED) for the current-matrix start.
    pub fn new(param: GameOfLifeStartParam, grid: &Grid) -> (r: Self)
        ensures
            forall|row: int, col: int|
                on_matrix(row, col) ==> r.cell(row, col) == if param
                    == GameOfLifeStartParam::CurrentMatrix {
                    cell_if(grid.0[col][row] != 0)
                } else {
                    cell_if(start_alive(param, row, col))
                },
    {
        match param {
            GameOfLifeStartParam::Beacon => Self::beacon(),
            GameOfLifeStartParam::CurrentMatrix => {
                let mut cells = dead_cells();
                let mut row: usize = 0;
                while row < HEIGHT
                    invariant
                        row <= HEIGHT,
                        forall|r: int, c: int|
                            on_matrix(r, c) ==> cells[r][c] == if r < row {
                                cell_if(grid.0[c][r] != 0)
                            } else {
                                Cell::Dead
                            },
                    decreases HEIGHT - row,
                {
                    let mut col: usize = 0;
                    while col < WIDTH
                        invariant
                            row < HEIGHT,
                            col <= WIDTH,
                            forall|r: int, c: int|
                                on_matrix(r, c) ==> cells[r][c] == if r < row || (r == row && c
                                    < col) {
                                    cell_if(grid.0[c][r] != 0)
                                } else {
                                    Cell::Dead
                                },
                        decreases WIDTH - col,
                    {
                        if grid.0[col][row] != 0 {
                            set_alive(&mut cells, row, col);
                        }
                        col = col + 1;
                    }
                    row = row + 1;
                }
                GameOfLifeState { cells }
            },
            GameOfLifeStartParam::Pattern1 => Self::pattern1(),
            GameOfLifeStartParam::Blinker => Self::blinker(),
            GameOfLifeStartParam::Toad => Self::toad(),
            GameOfLifeStartParam::Glider => Self::glider(),
            GameOfLifeStartParam::BeaconToadBlinker => Self::beacon().combine(&Self::toad()).combine(
                &Self::blinker(),
            ),
        }
    }

    /// Many live cells that soon settle into a still pattern.
    fn pattern1() -> (r: Self)
        ensures
            forall|row: int, col: int|
                on_matrix(row, col) ==> r.cell(row, col) == cell_if(pattern1_alive(row, col)),
    {
        let mut cells = dead_cells();
        let mut row: usize = 0;
        while row < HEIGHT
            invariant
                row <= HEIGHT,
                forall|r: int, c: int|
                    on_matrix(r, c) ==> cells[r][c] == cell_if(r < row && pattern1_alive(r, c)),
            decreases HEIGHT - row,
        {
            let mut col: usize = 0;
            while col < WIDTH
                invariant
                    row < HEIGHT,
                    col <= WIDTH,
                    forall|r: int, c: int|
                        on_matrix(r, c) ==> cells[r][c] == cell_if(
                            (r < row || (r == row && c < col)) && pattern1_alive(r, c),
                        ),
                decreases WIDTH - col,
            {
                let i = col * HEIGHT + row;
                if i % 2 == 0 || i % 7 == 0 {
                    set_alive(&mut cells, row, col);
                }
                col = col + 1;
            }
            row = row + 1;
        }
        GameOfLifeState { cells }
    }

    /// Two blinkers, oscillating between a row and a column of three.
    fn blinker() -> (r: Self)
        ensures
            forall|row: int, col: int|
                on_matrix(row, col) ==> r.cell(row, col) == cell_if(blinker_alive(row, col)),
    {
        let mut cells = dead_cells();
        set_alive(&mut cells, 4, 5);
        set_alive(&mut cells, 4, 6);
        set_alive(&mut cells, 4, 7);
        set_alive(&mut cells, 8, 5);
        set_alive(&mut cells, 8, 6);
        set_alive(&mut cells, 8, 7);
        GameOfLifeState { cells }
    }

    /// A toad, oscillating with period 2.
    fn toad() -> (r: Self)
        ensures
            forall|row: int, col: int|
                on_matrix(row, col) ==> r.cell(row, col) == cell_if(toad_alive(row, col)),
    {
        let mut cells = dead_cells();
        set_alive(&mut cells, 17, 4);
        set_alive(&mut cells, 17, 5);
        set_alive(&mut cells, 17, 6);
        set_alive(&mut cells, 18, 5);
        set_alive(&mut cells, 18, 6);
        set_alive(&mut cells, 18, 7);
        GameOfLifeState { cells }
    }

    /// A beacon, oscillating with period 2.
    fn beacon() -> (r: Self)
        ensures
            forall|row: int, col: int|
                on_matrix(row, col) ==> r.cell(row, col) == cell_if(beacon_alive(row, col)),
    {
        let mut cells = dead_cells();
        set_alive(&mut cells, 26, 4);
        set_alive(&mut cells, 26, 5);
        set_alive(&mut cells, 27, 4);
        set_alive(&mut cells, 27, 5);
        set_alive(&mut cells, 28, 6);
        set_alive(&mut cells, 28, 7);
        set_alive(&mut cells, 29, 6);
        set_alive(&mut cells, 29, 7);
        GameOfLifeState { cells }
    }

    /// Two gliders.
    fn glider() -> (r: Self)
        ensures
            forall|row: int, col: int|
                on_matrix(row, col) ==> r.cell(row, col) == cell_if(glider_alive(row, col)),
    {
        let mut cells = dead_cells();
        set_alive(&mut cells, 2, 3);
        set_alive(&mut cells, 3, 4);
        set_alive(&mut cells, 4, 2);
        set_alive(&mut cells, 4, 3);
        set_alive(&mut cells, 4, 4);
        set_alive(&mut cells, 20, 5);
        set_alive(&mut cells, 21, 6);
        set_alive(&mut cells, 22, 4);
        set_alive(&mut cells, 22, 5);
        set_alive(&mut cells, 22, 6);
        GameOfLifeState { cells }
    }

    /// 1 if the cell at `(row, col)` is alive, else 0.
    fn alive_at(&self, row: usize, col: usize) -> (r: u8)
        requires
            row < HEIGHT,
            col < WIDTH,
        ensures
            r == alive(self.cell(row as int, col as int)),
    {
        if self.cells[row][col] == Cell::Alive {
            1
        } else {
            0
        }
    }

    /// Counts the live cells around `(row, col)`, wrapping at the edges;
    /// the position itself wraps around the matrix too.
    pub fn live_neighbor_count(&self, row: usize, col: usize) -> (r: u8)
        ensures
            r == neighbors(*self, row as int, col as int),
    {
        let row0 = row % HEIGHT;
        let col0 = col % WIDTH;
        proof {
            lemma_wrap_reduced(row as int, HEIGHT as int);
            lemma_wrap_reduced(col as int, WIDTH as int);
        }
        let up = (row0 + HEIGHT - 1) % HEIGHT;
        let down = (row0 + 1) % HEIGHT;
        let left = (col0 + WIDTH - 1) % WIDTH;
        let right = (col0 + 1) % WIDTH;
        self.alive_at(up, left) + self.alive_at(up, col0) + self.alive_at(up, right)
            + self.alive_at(row0, left) + self.alive_at(row0, right) + self.alive_at(down, left)
            + self.alive_at(down, col0) + self.alive_at(down, right)
    }

    /// Advances one generation: every cell at once follows `next_cell`.
    pub fn tick(&mut self)
        ensures
            forall|row: int, col: int|
                on_matrix(row, col) ==> final(self).cell(row, col) == next_cell(
                    old(self).cell(row, col),
                    neighbors(*old(self), row, col),
                ),
    {
        let mut next_generation = self.cells;
        let mut row: usize = 0;
        while row < HEIGHT
            invariant
                row <= HEIGHT,
                *self == *old(self),
                forall|r: int, c: int|
                    on_matrix(r, c) ==> next_generation[r][c] == if r < row {
                        next_cell(self.cells[r][c], neighbors(*self, r, c))
                    } else {
                        self.cells[r][c]
                    },
            decreases HEIGHT - row,
        {
            let mut line = next_generation[row];
            assert forall|c: int| 0 <= c < WIDTH implies line[c] == self.cells[row as int][c] by {
                assert(on_matrix(row as int, c));
            }
            let mut col: usize = 0;
            while col < WIDTH
                invariant
                    row < HEIGHT,
                    col <= WIDTH,
                    *self == *old(self),
                    forall|c: int|
                        0 <= c < WIDTH ==> line[c] == if c < col {
                            next_cell(self.cells[row as int][c], neighbors(*self, row as int, c))
                        } else {
                            self.cells[row as int][c]
                        },
                decreases WIDTH - col,
            {
                let cell = self.cells[row][col];
                let live_neighbors = self.live_neighbor_count(row, col);
                let child_cell = if cell == Cell::Alive {
                    if live_neighbors == 2 || live_neighbors == 3 {
                        Cell::Alive
                    } else {
                        Cell::Dead
                    }
                } else if live_neighbors == 3 {
                    Cell::Alive
                } else {
                    cell
                };
                line[col] = child_cell;
                col = col + 1;
            }
            next_generation[row] = line;
            row = row + 1;
        }
        self.cells = next_generation;
    }

    /// The LED matrix showing the cells: full brightness where alive.
    pub fn draw_matrix(&self) -> (r: Grid)
        ensures
            forall|row: int, col: int|
                on_matrix(row, col) ==> r.0[col][row] == if self.cell(row, col) == Cell::Alive {
                    0xFFu8
                } else {
                    0u8
                },
    {
        let mut grid = Grid::default();
        let mut col: usize = 0;
        while col < WIDTH
            invariant
                col <= WIDTH,
                forall|c: int, r: int|
                    on_matrix(r, c) ==> grid.0[c][r] == if c < col && self.cells[r][c]
                        == Cell::Alive {
                        0xFFu8
                    } else {
                        0u8
                    },
            decreases WIDTH - col,
        {
            let mut column = [0u8; HEIGHT];
            let mut row: usize = 0;
            while row < HEIGHT
                invariant
                    col < WIDTH,
                    row <= HEIGHT,
                    forall|r: int|
                        0 <= r < HEIGHT ==> column[r] == if r < row && self.cells[r][col as int]
                            == Cell::Alive {
                            0xFFu8
                        } else {
                            0u8
                        },
                decreases HEIGHT - row,
            {
                if self.cells[row][col] == Cell::Alive {
                    column[row] = 0xFF;
                }
                row = row + 1;
            }
            grid.0[col] = column;
            col = col + 1;
        }
        grid
    }
}

} // verus!
