//! The LED matrix frame buffer.

use vstd::prelude::*;

verus! {

/// Number of columns.
pub const WIDTH: usize = 9;

/// Number of rows.
pub const HEIGHT: usize = 34;

/// Number of LEDs.
pub const LEDS: usize = WIDTH * HEIGHT;

/// Brightness of each LED, by column then row.
#[derive(Clone, Copy, Debug, PartialEq, Eq)]
pub struct Grid(pub [[u8; HEIGHT]; WIDTH]);

/// The LEDs of `g` column by column: LED `(x, y)` at `x * HEIGHT + y`.
pub open spec fn grid_leds(g: Grid) -> Seq<u8> {
    Seq::new(LEDS as nat, |i: int| g.0[i / HEIGHT as int][i % HEIGHT as int])
}

impl Default for Grid {
    fn default() -> (r: Self)
        ensures
            forall|x: int, y: int| 0 <= x < WIDTH && 0 <= y < HEIGHT ==> r.0[x][y] == 0,
    {
        Grid([[0u8; HEIGHT]; WIDTH])
    }
}

/// Why the module went to sleep.
#[derive(Clone, Copy, Debug, PartialEq, Eq, Structural)]
pub enum SleepReason {
    Command,
    SleepPin,
    Timeout,
    UsbSuspend,
}

} // verus!
