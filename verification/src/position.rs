//! Where a node is drawn.
//!
//! The store never computes with coordinates. It keeps each position in an
//! exact form and leaves the evaluation to whoever draws the graph.

use vstd::prelude::*;

verus! {

/// Distance between neighbouring points of the grid.
pub const GRID_STEP: u64 = 50;

/// Radius of the layout circle.
pub const RING_RADIUS: u64 = 150;

/// Both coordinates of the centre of the layout circle.
pub const RING_CENTER: u64 = 200;

/// The position of a node, kept exact.
#[derive(Clone, Copy, Debug, PartialEq, Eq, Structural)]
pub enum Position {
    /// Coordinates chosen by the caller. Each field is the bit pattern of a
    /// binary64 number; the store hands it back as it came.
    Free { x: u64, y: u64 },
    /// The grid point `(column * GRID_STEP, row * GRID_STEP)`.
    Grid { column: usize, row: usize },
    /// A point of the layout circle, which has radius `RING_RADIUS` and its
    /// centre at `(RING_CENTER, RING_CENTER)`: the point reached from the
    /// positive x direction by `slot` steps, each the `slots`-th part of a
    /// full turn.
    Ring { slot: usize, slots: usize },
}

impl Position {
    /// The position lies on the layout circle.
    pub open spec fn on_ring(self) -> bool {
        self is Ring
    }

    /// For a point of the layout circle, the angle from the positive x
    /// direction as a fraction of a full turn: numerator and denominator.
    /// For any other position, `(0, 1)`.
    pub open spec fn turn(self) -> (nat, nat) {
        match self {
            Position::Ring { slot, slots } => (slot as nat, slots as nat),
            _ => (0, 1),
        }
    }

    /// For a grid point, its exact coordinates. For any other position,
    /// `(0, 0)`.
    pub open spec fn grid_point(self) -> (nat, nat) {
        match self {
            Position::Grid { column, row } => (
                (column * GRID_STEP) as nat,
                (row * GRID_STEP) as nat,
            ),
            _ => (0, 0),
        }
    }
}

} // verus!
