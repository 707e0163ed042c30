//! Built-in frames for the LED matrix, and frames drawn from command data.

use vstd::prelude::*;
use crate::matrix::{Grid, HEIGHT, WIDTH};

verus! {

/// Bytes needed to give each LED one bit.
pub const DRAW_BYTES: usize = 39;

/// `(x, y)` lies on the matrix (column `x`, row `y`).
pub open spec fn on_grid(x: int, y: int) -> bool {
    0 <= x < WIDTH && 0 <= y < HEIGHT
}

/// Bit `i` of `bytes`, least significant bit first within each byte.
pub open spec fn bit_at(bytes: [u8; DRAW_BYTES], i: int) -> bool {
    bytes[i / 8] & (1u8 << ((i % 8) as u8)) != 0
}

/// `grid` with LED `(x, y)` set to `v`.
fn set_led(grid: &mut Grid, x: usize, y: usize, v: u8)
    requires
        x < WIDTH,
        y < HEIGHT,
    ensures
        forall|a: int, b: int|
            on_grid(a, b) ==> final(grid).0[a][b] == if a == x && b == y {
                v
            } else {
                old(grid).0[a][b]
            },
{
    let mut column = grid.0[x];
    column[y] = v;
    grid.0[x] = column;
}

/// A black and white frame from one bit per LED, row by row: bit
/// `x + WIDTH * y` lights LED `(WIDTH - 1 - x, y)`.
pub fn draw(bytes: &[u8; DRAW_BYTES]) -> (r: Grid)
    ensures
        forall|c: int, y: int|
            on_grid(c, y) ==> r.0[c][y] == if bit_at(*bytes, (WIDTH - 1 - c) + WIDTH * y) {
                0xFFu8
            } else {
                0u8
            },
{
    let mut grid = Grid::default();
    let mut y: usize = 0;
    while y < HEIGHT
        invariant
            y <= HEIGHT,
            forall|c: int, b: int|
                on_grid(c, b) ==> grid.0[c][b] == if b < y && bit_at(
                    *bytes,
                    (WIDTH - 1 - c) + WIDTH * b,
                ) {
                    0xFFu8
                } else {
                    0u8
                },
        decreases HEIGHT - y,
    {
        let mut x: usize = 0;
        while x < WIDTH
            invariant
                y < HEIGHT,
                x <= WIDTH,
                forall|c: int, b: int|
                    on_grid(c, b) ==> grid.0[c][b] == if (b < y || (b == y && WIDTH - 1 - c < x))
                        && bit_at(*bytes, (WIDTH - 1 - c) + WIDTH * b) {
                        0xFFu8
                    } else {
                        0u8
                    },
            decreases WIDTH - x,
        {
            let index = x + WIDTH * y;
            let byte = index / 8;
            let bit = index % 8;
            let val: u8 = if bytes[byte] & (1u8 << (bit as u8)) != 0 {
                0xFF
            } else {
                0x00
            };
            set_led(&mut grid, WIDTH - 1 - x, y, val);
            x = x + 1;
        }
        y = y + 1;
    }
    grid
}

/// Sets column `WIDTH - 1 - col` to the brightness `levels`.
pub fn draw_grey_col(grid: &mut Grid, col: u8, levels: &[u8; HEIGHT])
    requires
        col < WIDTH,
    ensures
        forall|x: int, y: int|
            on_grid(x, y) ==> final(grid).0[x][y] == if x == WIDTH - 1 - col {
                levels[y]
            } else {
                old(grid).0[x][y]
            },
{
    grid.0[WIDTH - 1 - col as usize] = *levels;
}

/// Brightness `y + 1` on row `y`: brighter from top to bottom.
pub fn gradient() -> (r: Grid)
    ensures
        forall|x: int, y: int| on_grid(x, y) ==> r.0[x][y] == y + 1,
{
    let mut grid = Grid::default();
    let mut y: usize = 0;
    while y < HEIGHT
        invariant
            y <= HEIGHT,
            forall|a: int, b: int| on_grid(a, b) ==> grid.0[a][b] == if b < y { b + 1 } else { 0 },
        decreases HEIGHT - y,
    {
        let mut x: usize = 0;
        while x < WIDTH
            invariant
                y < HEIGHT,
                x <= WIDTH,
                forall|a: int, b: int|
                    on_grid(a, b) ==> grid.0[a][b] == if b < y || (b == y && a < x) {
                        b + 1
                    } else {
                        0
                    },
            decreases WIDTH - x,
        {
            set_led(&mut grid, x, y, (y + 1) as u8);
            x = x + 1;
        }
        y = y + 1;
    }
    grid
}

/// Number of rows lit for `percentage`.
pub open spec fn rows_lit(percentage: u16) -> int {
    HEIGHT * percentage / 100
}

/// Lights the bottom `HEIGHT * percent / 100` rows fully; `percent`
/// must not light more rows than there are.
pub fn percentage(percent: u16) -> (r: Grid)
    requires
        rows_lit(percent) <= HEIGHT,
    ensures
        forall|x: int, y: int|
            on_grid(x, y) ==> r.0[x][y] == if y >= HEIGHT - rows_lit(percent) {
                0xFFu8
            } else {
                0u8
            },
{
    let mut grid = Grid::default();
    let first_row = HEIGHT * (percent as usize) / 100;
    let mut y: usize = HEIGHT - first_row;
    while y < HEIGHT
        invariant
            first_row == rows_lit(percent),
            HEIGHT - first_row <= y <= HEIGHT,
            forall|a: int, b: int|
                on_grid(a, b) ==> grid.0[a][b] == if HEIGHT - first_row <= b < y {
                    0xFFu8
                } else {
                    0u8
                },
        decreases HEIGHT - y,
    {
        let mut x: usize = 0;
        while x < WIDTH
            invariant
                first_row == rows_lit(percent),
                HEIGHT - first_row <= y < HEIGHT,
                x <= WIDTH,
                forall|a: int, b: int|
                    on_grid(a, b) ==> grid.0[a][b] == if HEIGHT - first_row <= b < y || (b == y
                        && a < x) {
                        0xFFu8
                    } else {
                        0u8
                    },
            decreases WIDTH - x,
        {
            set_led(&mut grid, x, y, 0xFF);
            x = x + 1;
        }
        y = y + 1;
    }
    grid
}

/// Brightness of row `y` in the double gradient.
pub open spec fn double_gradient_level(y: int) -> int {
    if y < HEIGHT / 2 {
        y + 1
    } else {
        HEIGHT - (y + 1)
    }
}

/// Bright in the middle, dim at top and bottom: `y + 1` in the upper half,
/// `HEIGHT - (y + 1)` in the lower.
pub fn double_gradient() -> (r: Grid)
    ensures
        forall|x: int, y: int| on_grid(x, y) ==> r.0[x][y] == double_gradient_level(y),
{
    let mut grid = Grid::default();
    let mut y: usize = 0;
    while y < HEIGHT
        invariant
            y <= HEIGHT,
            forall|a: int, b: int|
                on_grid(a, b) ==> grid.0[a][b] == if b < y {
                    double_gradient_level(b)
                } else {
                    0
                },
        decreases HEIGHT - y,
    {
        let level: u8 = if y < HEIGHT / 2 {
            (y + 1) as u8
        } else {
            (HEIGHT - (y + 1)) as u8
        };
        let mut x: usize = 0;
        while x < WIDTH
            invariant
                y < HEIGHT,
                x <= WIDTH,
                level == double_gradient_level(y as int),
                forall|a: int, b: int|
                    on_grid(a, b) ==> grid.0[a][b] == if b < y || (b == y && a < x) {
                        double_gradient_level(b)
                    } else {
                        0
                    },
            decreases WIDTH - x,
        {
            set_led(&mut grid, x, y, level);
            x = x + 1;
        }
        y = y + 1;
    }
    grid
}

/// The LEDs of the zigzag: a diagonal line bouncing between the sides,
/// one column per row, with one more LED to finish the last row.
pub open spec fn zigzag_lit(x: int, y: int) -> bool {
    ||| 0 <= y < 9 && x == y
    ||| 9 <= y < 18 && x == 17 - y
    ||| 18 <= y < 27 && x == y - 18
    ||| 27 <= y < 34 && x == 35 - y
    ||| x == 1 && y == 33
}

/// A diagonal line zigzagging down the matrix.
pub fn zigzag() -> (r: Grid)
    ensures
        forall|x: int, y: int|
            on_grid(x, y) ==> r.0[x][y] == if zigzag_lit(x, y) {
                0xFFu8
            } else {
                0u8
            },
{
    let mut grid = Grid::default();
    let mut y: usize = 0;
    while y < HEIGHT
        invariant
            y <= HEIGHT,
            forall|a: int, b: int|
                on_grid(a, b) ==> grid.0[a][b] == if b < y && zigzag_lit(a, b) {
                    0xFFu8
                } else {
                    0u8
                },
        decreases HEIGHT - y,
    {
        let x: usize = if y < WIDTH {
            y
        } else if y < 2 * WIDTH {
            2 * WIDTH - 1 - y
        } else if y < 3 * WIDTH {
            y - 2 * WIDTH
        } else {
            4 * WIDTH - 1 - y
        };
        set_led(&mut grid, x, y, 0xFF);
        if y == HEIGHT - 1 {
            set_led(&mut grid, 1, y, 0xFF);
        }
        y = y + 1;
    }
    grid
}

} // verus!
