//! Startup animations as frame sources: each `next` call yields the next
//! frame until the animation is over.

use vstd::prelude::*;
use crate::control::GameOfLifeStartParam;
use crate::game_of_life::{
    cell_if, neighbors, next_cell, on_matrix, start_alive, Cell, GameOfLifeState,
};
use crate::matrix::{Grid, HEIGHT, WIDTH};

verus! {

/// Brightness added at each breathing step.
pub const BREATH_STEP: u8 = 4;

/// Frames of a game of life, one generation per frame.
pub struct GameOfLifeIterator {
    state: GameOfLifeState,
    frames_remaining: usize,
}

impl GameOfLifeIterator {
    /// The current generation.
    pub closed spec fn state(&self) -> GameOfLifeState {
        self.state
    }

    /// Frames still to come.
    pub closed spec fn remaining(&self) -> nat {
        self.frames_remaining as nat
    }

    /// `frames` generations starting from `start_param` on an empty matrix.
    pub fn new(start_param: GameOfLifeStartParam, frames: usize) -> (r: Self)
        ensures
            r.remaining() == frames,
            forall|row: int, col: int|
                on_matrix(row, col) ==> r.state().cell(row, col) == cell_if(
                    start_alive(start_param, row, col),
                ),
    {
        let grid = Grid::default();
        GameOfLifeIterator {
            state: GameOfLifeState::new(start_param, &grid),
            frames_remaining: frames,
        }
    }

    /// Advances one generation and returns it drawn; `None` once all frames
    /// were given.
    pub fn next(&mut self) -> (r: Option<Grid>)
        ensures
            old(self).remaining() == 0 ==> r is None && *final(self) == *old(self),
            old(self).remaining() > 0 ==> {
                &&& final(self).remaining() == old(self).remaining() - 1
                &&& forall|row: int, col: int|
                    on_matrix(row, col) ==> final(self).state().cell(row, col) == next_cell(
                        old(self).state().cell(row, col),
                        neighbors(old(self).state(), row, col),
                    )
                &&& r matches Some(g) && forall|row: int, col: int|
                    on_matrix(row, col) ==> g.0[col][row] == if final(self).state().cell(row, col)
                        == Cell::Alive {
                        0xFFu8
                    } else {
                        0u8
                    }
            },
    {
        if self.frames_remaining > 0 {
            self.frames_remaining = self.frames_remaining - 1;
            self.state.tick();
            Some(self.state.draw_matrix())
        } else {
            None
        }
    }
}

/// Frames of the whole matrix growing brighter step by step.
pub struct BreathingIterator {
    frames_remaining: usize,
    current_brightness: u8,
}

/// The brightness after `b`: `BREATH_STEP` more, wrapping at 256, modulo 255.
pub open spec fn next_brightness(b: u8) -> u8 {
    (((b + BREATH_STEP) % 256) % 255) as u8
}

impl BreathingIterator {
    /// Frames still to come.
    pub closed spec fn remaining(&self) -> nat {
        self.frames_remaining as nat
    }

    /// Brightness of the last frame given (0 before the first).
    pub closed spec fn brightness(&self) -> u8 {
        self.current_brightness
    }

    /// `frames` frames, starting from darkness.
    pub fn new(frames: usize) -> (r: Self)
        ensures
            r.remaining() == frames,
            r.brightness() == 0,
    {
        BreathingIterator { frames_remaining: frames, current_brightness: 0 }
    }

    /// The next frame: every LED at the next brightness; `None` once all
    /// frames were given.
    pub fn next(&mut self) -> (r: Option<Grid>)
        ensures
            old(self).remaining() == 0 ==> r is None && *final(self) == *old(self),
            old(self).remaining() > 0 ==> {
                &&& final(self).remaining() == old(self).remaining() - 1
                &&& final(self).brightness() == next_brightness(old(self).brightness())
                &&& r matches Some(g) && forall|x: int, y: int|
                    0 <= x < WIDTH && 0 <= y < HEIGHT ==> g.0[x][y] == final(self).brightness()
            },
    {
        if self.frames_remaining > 0 {
            self.current_brightness = self.current_brightness.wrapping_add(BREATH_STEP) % 255;
            let column = [self.current_brightness; HEIGHT];
            let grid = Grid([column; WIDTH]);
            self.frames_remaining = self.frames_remaining - 1;
            Some(grid)
        } else {
            None
        }
    }
}

} // verus!
