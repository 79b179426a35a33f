//! The part of the plane that a rendering of a world has to show.

use crate::world::cell::magnitude_of;
use crate::world::{Cell, Coord, Point, World, WorldView};
use vstd::prelude::*;

verus! {

/// The frame of a rendering. Horizontal positions are counted in half
/// cells, so that the cells of every row stand at whole numbers: a cell
/// stands at twice its horizontal position, and rows alternate between
/// even and odd numbers.
#[derive(PartialEq, Eq, Structural, Clone, Copy, Debug)]
pub struct Extent {
    /// The least horizontal position, in half cells.
    pub min_x: i128,
    /// The greatest horizontal position, in half cells.
    pub max_x: i128,
    /// The lowest row.
    pub min_y: isize,
    /// The highest row.
    pub max_y: isize,
    /// The greatest number of steps that a shown cell stands for.
    pub max_value: usize,
}

impl Extent {
    /// Whether a point at a horizontal position and in a row, holding a
    /// cell that stands for a number of steps, lies within the frame.
    pub open spec fn holds(self, x: int, y: int, value: int) -> bool {
        &&& self.min_x <= x <= self.max_x
        &&& self.min_y <= y <= self.max_y
        &&& value <= self.max_value
    }
}

impl<C: Cell> WorldView<C> {
    /// Whether a rendering shows a point: the origin, the head and every
    /// stored cell are shown.
    pub open spec fn shows(self, p: Point) -> bool {
        p == Point::origin() || p == self.head || self.cells.contains_key(p)
    }

    /// Whether a frame is the least one that holds every point that a
    /// rendering shows: it holds them all, and each of its five bounds
    /// is reached by one of them.
    pub open spec fn framed_by(self, extent: Extent) -> bool {
        &&& forall|p: Point| #[trigger]
            self.shows(p) ==> extent.holds(
                p.twice_x(),
                p.ul,
                magnitude_of(self.get(p).value()) as int,
            )
        &&& exists|p: Point| #[trigger] self.shows(p) && p.twice_x() == extent.min_x
        &&& exists|p: Point| #[trigger] self.shows(p) && p.twice_x() == extent.max_x
        &&& exists|p: Point| #[trigger] self.shows(p) && p.ul == extent.min_y
        &&& exists|p: Point| #[trigger] self.shows(p) && p.ul == extent.max_y
        &&& exists|p: Point| #[trigger]
            self.shows(p) && magnitude_of(self.get(p).value()) == extent.max_value
    }
}

/// The number of decimal digits of a number.
pub open spec fn digits(n: nat) -> nat
    decreases n,
{
    if n < 10 {
        1
    } else {
        1 + digits(n / 10)
    }
}

/// The number of decimal digits of a number.
pub fn decimal_width(n: usize) -> (res: usize)
    ensures
        res == digits(n as nat),
{
    let mut rest = n;
    let mut width: usize = 1;
    while rest >= 10
        invariant
            digits(n as nat) == (width - 1) + digits(rest as nat),
            1 <= width,
            width - 1 + rest <= n,
        decreases rest,
    {
        rest = rest / 10;
        width = width + 1;
    }
    width
}

impl Coord {
    /// The horizontal position of the coordinate, in half cells.
    pub fn absolute_x(&self) -> (res: i128)
        ensures
            res == self@.twice_x(),
    {
        2 * (self.r as i128) - (self.ul as i128)
    }

    /// The row of the coordinate.
    pub fn absolute_y(&self) -> (res: isize)
        ensures
            res == self@.ul,
    {
        self.ul
    }

    /// The coordinate at a horizontal position, in half cells, and in a
    /// row. Rows with an even number hold cells at even positions, the
    /// others at odd ones; elsewhere there is no coordinate.
    pub fn from_absolute(x: i128, y: isize) -> (res: Option<Coord>)
        ensures
            res is Some ==> res.unwrap()@.twice_x() == x && res.unwrap()@.ul == y,
            res is None ==> forall|c: Coord| !(c@.twice_x() == x && #[trigger] c@.ul == y),
    {
        let sum = match x.checked_add(y as i128) {
            Some(sum) => sum,
            None => {
                return None;
            },
        };
        if sum.checked_rem_euclid(2) != Some(0) {
            return None;
        }
        let half = match sum.checked_div_euclid(2) {
            Some(half) => half,
            None => {
                return None;
            },
        };
        if isize::MIN as i128 <= half && half <= isize::MAX as i128 {
            Some(Coord { r: half as isize, ul: y })
        } else {
            None
        }
    }
}

impl Extent {
    /// The least frame that holds this one and a point at a coordinate
    /// with a cell that stands for a number of steps.
    pub open spec fn widened(self, p: Point, value: usize) -> Extent {
        Extent {
            min_x: if p.twice_x() < self.min_x {
                p.twice_x() as i128
            } else {
                self.min_x
            },
            max_x: if p.twice_x() > self.max_x {
                p.twice_x() as i128
            } else {
                self.max_x
            },
            min_y: if p.ul < self.min_y {
                p.ul as isize
            } else {
                self.min_y
            },
            max_y: if p.ul > self.max_y {
                p.ul as isize
            } else {
                self.max_y
            },
            max_value: if value > self.max_value {
                value
            } else {
                self.max_value
            },
        }
    }

    /// The least frame that holds this one and a point at a coordinate
    /// with a cell that stands for a number of steps.
    pub fn widen(self, coord: Coord, value: usize) -> (res: Extent)
        ensures
            res == self.widened(coord@, value),
    {
        let x = coord.absolute_x();
        let y = coord.absolute_y();
        Extent {
            min_x: if x < self.min_x {
                x
            } else {
                self.min_x
            },
            max_x: if x > self.max_x {
                x
            } else {
                self.max_x
            },
            min_y: if y < self.min_y {
                y
            } else {
                self.min_y
            },
            max_y: if y > self.max_y {
                y
            } else {
                self.max_y
            },
            max_value: if value > self.max_value {
                value
            } else {
                self.max_value
            },
        }
    }
}

/// The points at which a frame reaches its five bounds.
struct Reached {
    /// A point at the least horizontal position.
    pub min_x: Point,
    /// A point at the greatest horizontal position.
    pub max_x: Point,
    /// A point in the lowest row.
    pub min_y: Point,
    /// A point in the highest row.
    pub max_y: Point,
    /// A point whose cell stands for the greatest number of steps.
    pub max_value: Point,
}

impl Reached {
    /// Whether a rendering of a world shows the five points and a frame
    /// has its bounds at them.
    spec fn bounds<C: Cell>(self, world: WorldView<C>, extent: Extent) -> bool {
        &&& world.shows(self.min_x) && self.min_x.twice_x() == extent.min_x
        &&& world.shows(self.max_x) && self.max_x.twice_x() == extent.max_x
        &&& world.shows(self.min_y) && self.min_y.ul == extent.min_y
        &&& world.shows(self.max_y) && self.max_y.ul == extent.max_y
        &&& world.shows(self.max_value) && magnitude_of(world.get(self.max_value).value())
            == extent.max_value
    }

    /// The points at which a frame reaches its bounds once it has been
    /// widened by a point.
    spec fn widened(self, extent: Extent, p: Point, value: usize) -> Reached {
        Reached {
            min_x: if p.twice_x() < extent.min_x {
                p
            } else {
                self.min_x
            },
            max_x: if p.twice_x() > extent.max_x {
                p
            } else {
                self.max_x
            },
            min_y: if p.ul < extent.min_y {
                p
            } else {
                self.min_y
            },
            max_y: if p.ul > extent.max_y {
                p
            } else {
                self.max_y
            },
            max_value: if value > extent.max_value {
                p
            } else {
                self.max_value
            },
        }
    }
}

impl<C: Cell> World<C> {
    /// The least frame that holds the origin, the head and every stored
    /// cell.
    pub fn extent(&self) -> (res: Extent)
        ensures
            self@.framed_by(res),
    {
        let head = self.head();
        let origin = Coord::zero();
        let cells = self.stored_cells();
        let first = Extent {
            min_x: 0,
            max_x: 0,
            min_y: 0,
            max_y: 0,
            max_value: self.get(origin).get_usize_val(),
        };
        let head_value = self.get(head).get_usize_val();
        let mut extent = first.widen(head, head_value);
        let ghost mut reached = Reached {
            min_x: origin@,
            max_x: origin@,
            min_y: origin@,
            max_y: origin@,
            max_value: origin@,
        }.widened(first, head@, head_value);
        let mut i: usize = 0;
        while i < cells.len()
            invariant
                i <= cells@.len(),
                forall|j: int|
                    0 <= j < cells@.len() ==> self@.cells.contains_key(#[trigger] cells@[j].0@)
                        && self@.cells[cells@[j].0@] == cells@[j].1,
                extent.holds(0, 0, magnitude_of(self@.get(Point::origin()).value()) as int),
                extent.holds(
                    self@.head.twice_x(),
                    self@.head.ul,
                    magnitude_of(self@.get(self@.head).value()) as int,
                ),
                forall|j: int|
                    0 <= j < i ==> extent.holds(
                        (#[trigger] cells@[j]).0@.twice_x(),
                        cells@[j].0@.ul,
                        magnitude_of(cells@[j].1.value()) as int,
                    ),
                reached.bounds(self@, extent),
            decreases cells@.len() - i,
        {
            let coord = cells[i].0;
            let value = cells[i].1.get_usize_val();
            proof {
                reached = reached.widened(extent, coord@, value);
            }
            extent = extent.widen(coord, value);
            i = i + 1;
        }
        proof {
            assert forall|p: Point| #[trigger] self@.shows(p) implies extent.holds(
                p.twice_x(),
                p.ul,
                magnitude_of(self@.get(p).value()) as int,
            ) by {
                if self@.cells.contains_key(p) {
                    let j = choose|j: int| 0 <= j < cells@.len() && (#[trigger] cells@[j]).0@ == p;
                    assert(cells@[j].1 == self@.get(p));
                }
            }
            assert(self@.shows(reached.min_x) && reached.min_x.twice_x() == extent.min_x);
            assert(self@.shows(reached.max_x) && reached.max_x.twice_x() == extent.max_x);
            assert(self@.shows(reached.min_y) && reached.min_y.ul == extent.min_y);
            assert(self@.shows(reached.max_y) && reached.max_y.ul == extent.max_y);
            assert(self@.shows(reached.max_value) && magnitude_of(
                self@.get(reached.max_value).value(),
            ) == extent.max_value);
        }
        extent
    }
}

} // verus!
