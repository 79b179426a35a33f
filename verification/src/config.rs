//! What is settled once, before a script runs.

use crate::world::cell::{Cell, U32Cell, U8Cell};
use vstd::prelude::*;

verus! {

/// The type of cells in the world.
#[derive(PartialEq, Eq, Structural, Clone, Copy, Debug)]
pub enum CellMode {
    /// 8-bit unsigned integers.
    U8,
    /// 32-bit unsigned integers.
    U32,
}

impl CellMode {
    /// The largest number that a cell of this type holds.
    pub open spec fn max_value(self) -> nat {
        match self {
            CellMode::U8 => U8Cell::max_value(),
            CellMode::U32 => U32Cell::max_value(),
        }
    }

    /// The largest number that a cell of this type holds.
    pub fn largest(self) -> (res: u32)
        ensures
            res == self.max_value(),
    {
        match self {
            CellMode::U8 => 0xFF,
            CellMode::U32 => 0xFFFF_FFFF,
        }
    }
}

impl Default for CellMode {
    /// Cells are wide unless the caller says otherwise.
    fn default() -> (res: CellMode)
        ensures
            res == CellMode::U32,
    {
        CellMode::U32
    }
}

} // verus!
