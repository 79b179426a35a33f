//! Worlds contain the cell grid and world head.
//!
//! The grid is sparse: a world stores the cells that do not hold one, and
//! every other cell reads as one, so that a cell that was never written
//! is neutral in a product and in a quotient.
//!
//! The origin has two halves that instructions reach beside its plain
//! cell. Which half an instruction reaches is decided by where the head
//! stands: from the right of the vertical line through the origin it
//! reaches the right half, from the left of that line the left half, and
//! from the line itself neither. Reading the right half takes the next
//! value of the input stream, writing the left half sends the cell to the
//! output stream, and every other access to the origin reads or writes
//! the cell that the world keeps there like any other.

pub mod adj;
pub mod axis;
pub mod cell;
pub mod coord;
pub mod dir;
pub mod extent;

pub use adj::Adj;
pub use axis::Axis;
pub use cell::{Cell, CellReader, CellStdinReadError};
pub use coord::{Coord, Point};
pub use dir::Dir;
pub use extent::Extent;

use std::collections::BTreeMap;
use vstd::prelude::*;
use vstd::std_specs::cmp::OrdSpec;
use vstd::std_specs::iter::IteratorSpec;

verus! {

broadcast use {vstd::std_specs::btree::group_btree_axioms, vstd::laws_cmp::group_laws_cmp};

/// What a world holds: the position of its head, and the cells that it
/// stores. Every cell that is not stored holds one.
pub struct WorldView<C> {
    /// The current position of the world head.
    pub head: Point,
    /// The cells that the world stores.
    pub cells: Map<Point, C>,
}

impl<C: Cell> WorldView<C> {
    /// The world before any instruction has run: the head at the origin,
    /// no cell stored.
    pub open spec fn empty() -> WorldView<C> {
        WorldView { head: Point::origin(), cells: Map::empty() }
    }

    /// The cell at a point: the stored one, or one.
    pub open spec fn get(self, p: Point) -> C {
        if self.cells.contains_key(p) {
            self.cells[p]
        } else {
            cell::cell_of::<C>(1)
        }
    }

    /// The world with a cell overwritten. A cell that holds one is not
    /// stored: the point is taken out of the storage instead.
    pub open spec fn insert(self, p: Point, c: C) -> WorldView<C> {
        WorldView {
            head: self.head,
            cells: if c.value() == 1 {
                self.cells.remove(p)
            } else {
                self.cells.insert(p, c)
            },
        }
    }

    /// The world with its head at another point.
    pub open spec fn with_head(self, p: Point) -> WorldView<C> {
        WorldView { head: p, cells: self.cells }
    }

    /// Whether no stored cell holds one.
    pub open spec fn sparse(self) -> bool {
        forall|p: Point| #[trigger] self.cells.contains_key(p) ==> self.cells[p].value() != 1
    }

    /// The half of the origin that the head faces: the left half from
    /// the left of the origin, the right half from the right of it, and
    /// neither from the origin itself or from straight above or below.
    pub open spec fn half_side(self) -> Option<Dir> {
        self.head.side()
    }

    /// Whether reading the cell at a point takes a value from the input
    /// stream: the point is the origin, and the head faces its right
    /// half.
    pub open spec fn reads_input(self, p: Point) -> bool {
        p == Point::origin() && self.half_side() == Some(Dir::R)
    }

    /// Whether writing the cell at a point sends it to the output
    /// stream: the point is the origin, and the head faces its left
    /// half.
    pub open spec fn writes_output(self, p: Point) -> bool {
        p == Point::origin() && self.half_side() == Some(Dir::L)
    }

    /// After a cell is written it is the cell read at that point, and
    /// every other point reads as before. Writing one takes the point
    /// out of the storage, writing any other cell stores it, and no
    /// stored cell holds one afterwards if none did before.
    pub proof fn lemma_insert_get(self, p: Point, c: C, q: Point)
        ensures
            self.insert(p, c).get(p) == c,
            q != p ==> self.insert(p, c).get(q) == self.get(q),
            self.insert(p, c).cells.contains_key(p) <==> c.value() != 1,
            q != p ==> (self.insert(p, c).cells.contains_key(q) <==> self.cells.contains_key(q)),
            self.insert(p, c).head == self.head,
            self.sparse() ==> self.insert(p, c).sparse(),
    {
        if c.value() == 1 {
            cell::lemma_cell_of(c);
        }
    }

    /// Writing the cell that a point reads changes nothing in a world
    /// where no stored cell holds one.
    pub proof fn lemma_insert_same(self, p: Point)
        requires
            self.sparse(),
        ensures
            self.insert(p, self.get(p)) == self,
    {
        let c = self.get(p);
        if self.cells.contains_key(p) {
            assert(self.cells.insert(p, c) =~= self.cells);
        } else {
            cell::lemma_zero_and_one::<C>();
            assert(self.cells.remove(p) =~= self.cells);
        }
    }
}

/// A container for the cell grid and world head.
///
/// The grid is sparse: it stores the cells that do not hold one, and
/// every other cell reads as one.
pub struct World<C: Cell> {
    /// The current position of the world head.
    head: Coord,
    /// The cells in the world.
    cells: BTreeMap<(isize, isize), C>,
}

impl<C: Cell> View for World<C> {
    type V = WorldView<C>;

    closed spec fn view(&self) -> WorldView<C> {
        WorldView {
            head: self.head@,
            cells: Map::new(
                |p: Point| p.representable() && self.cells@.contains_key(World::<C>::key(p)),
                |p: Point| self.cells@[World::<C>::key(p)],
            ),
        }
    }
}

impl<C: Cell> Default for World<C> {
    fn default() -> (res: Self)
        ensures
            res@ == WorldView::<C>::empty(),
            res.wf(),
    {
        World::new()
    }
}

impl<C: Cell> World<C> {
    /// The key under which the cell at a point is stored.
    spec fn key(p: Point) -> (isize, isize) {
        (p.r as isize, p.ul as isize)
    }

    /// The invariant of a world: no stored cell holds one. A new world
    /// has it and every method keeps it.
    pub open spec fn wf(&self) -> bool {
        self@.sparse()
    }

    /// A world with its head at the origin and no cell stored.
    pub fn new() -> (res: Self)
        ensures
            res@ == WorldView::<C>::empty(),
            res.wf(),
    {
        let res = World { head: Coord::zero(), cells: BTreeMap::new() };
        assert(res@.cells =~= Map::<Point, C>::empty());
        res
    }

    /// Get the current world head.
    pub fn head(&self) -> (res: Coord)
        ensures
            res@ == self@.head,
    {
        self.head
    }

    /// Get a mutable reference to the world head.
    pub fn head_mut(&mut self) -> (res: &mut Coord)
        ensures
            (*res)@ == old(self)@.head,
            final(self)@ == old(self)@.with_head((*final(res))@),
    {
        &mut self.head
    }

    /// Moves the world head.
    pub fn set_head(&mut self, head: Coord)
        ensures
            final(self)@ == old(self)@.with_head(head@),
    {
        self.head = head;
    }

    /// Get a cell in the world by coordinate.
    ///
    /// *Note: If the cell is not stored, one is returned.*
    pub fn get(&self, coord: Coord) -> (res: C)
        ensures
            res == self@.get(coord@),
    {
        match self.cells.get(&(coord.r, coord.ul)) {
            Some(cell) => *cell,
            None => {
                let one = C::one();
                proof {
                    cell::lemma_cell_of(one);
                }
                one
            },
        }
    }

    /// Whether the world stores a cell at a coordinate.
    pub fn is_stored(&self, coord: Coord) -> (res: bool)
        ensures
            res == self@.cells.contains_key(coord@),
    {
        self.cells.contains_key(&(coord.r, coord.ul))
    }

    /// The number of cells that the world stores.
    pub fn stored_len(&self) -> (res: usize)
        ensures
            res == self@.cells.len(),
    {
        proof {
            self.lemma_view_len();
        }
        self.cells.len()
    }

    /// Overwrites a cell in the world.
    pub fn insert(&mut self, coord: Coord, cell: C)
        ensures
            final(self)@ == old(self)@.insert(coord@, cell),
            old(self).wf() ==> final(self).wf(),
    {
        let one = C::one();
        if cell.number() == one.number() {
            self.cells.remove(&(coord.r, coord.ul));
            assert(self@.cells =~= old(self)@.cells.remove(coord@));
        } else {
            self.cells.insert((coord.r, coord.ul), cell);
            assert(self@.cells =~= old(self)@.cells.insert(coord@, cell));
        }
        proof {
            old(self)@.lemma_insert_get(coord@, cell, coord@);
        }
    }

    /// The cells that the world stores, each once and with its
    /// coordinate, in the order of the coordinates: by `r` first and by
    /// `ul` where `r` is the same.
    pub fn stored_cells(&self) -> (res: Vec<(Coord, C)>)
        ensures
            res@.len() == self@.cells.len(),
            forall|i: int|
                0 <= i < res@.len() ==> self@.cells.contains_key(#[trigger] res@[i].0@)
                    && self@.cells[res@[i].0@] == res@[i].1,
            forall|i: int, j: int|
                0 <= i < j < res@.len() ==> (#[trigger] res@[i]).0@.precedes(
                    (#[trigger] res@[j]).0@,
                ),
            forall|p: Point| #[trigger]
                self@.cells.contains_key(p) ==> exists|i: int|
                    0 <= i < res@.len() && (#[trigger] res@[i]).0@ == p,
    {
        proof {
            self.lemma_view_len();
        }
        let mut out: Vec<(Coord, C)> = Vec::new();
        let ghost all = self.cells.iter().remaining();
        let ghost keys = all.map_values(|entry: (&(isize, isize), &C)| *entry.0);
        for entry in it: self.cells.iter()
            invariant
                it.seq() == all,
                keys == all.map_values(|entry: (&(isize, isize), &C)| *entry.0),
                vstd::std_specs::btree::increasing_seq(keys),
                all.len() == self.cells@.len(),
                forall|i: int|
                    0 <= i < all.len() ==> self.cells@.contains_key(*(#[trigger] all[i]).0)
                        && self.cells@[*all[i].0] == *all[i].1,
                out@.len() == it.index(),
                forall|i: int|
                    0 <= i < out@.len() ==> (#[trigger] out@[i]).0.r == all[i].0.0 && out@[i].0.ul
                        == all[i].0.1 && out@[i].1 == *all[i].1,
        {
            let (key, cell) = entry;
            out.push((Coord { r: key.0, ul: key.1 }, *cell));
        }
        assert forall|i: int, j: int| 0 <= i < j < out@.len() implies (#[trigger] out@[i]).0@
            .precedes((#[trigger] out@[j]).0@) by {
            assert(keys[i].cmp_spec(&keys[j]) is Less);
        }
        assert forall|p: Point| #[trigger] self@.cells.contains_key(p) implies exists|i: int|
            0 <= i < out@.len() && (#[trigger] out@[i]).0@ == p by {
            let k = World::<C>::key(p);
            assert(self.cells@.contains_key(k));
            assert(all.contains((&k, &self.cells@[k])));
            let i = all.index_of((&k, &self.cells@[k]));
            assert(out@[i].0@ == p);
        }
        out
    }

    /// The half of the origin that the head faces.
    pub fn half_side(&self) -> (res: Option<Dir>)
        ensures
            res == self@.half_side(),
    {
        self.head.side()
    }

    /// Whether reading the cell at a coordinate takes a value from the
    /// input stream.
    pub fn reads_input(&self, coord: Coord) -> (res: bool)
        ensures
            res == self@.reads_input(coord@),
    {
        coord.r == 0 && coord.ul == 0 && self.half_side() == Some(Dir::R)
    }

    /// Whether writing the cell at a coordinate sends it to the output
    /// stream.
    pub fn writes_output(&self, coord: Coord) -> (res: bool)
        ensures
            res == self@.writes_output(coord@),
    {
        coord.r == 0 && coord.ul == 0 && self.half_side() == Some(Dir::L)
    }

    /// A world stores finitely many cells.
    pub proof fn lemma_stored_finite(&self)
        ensures
            self@.cells.dom().finite(),
    {
        self.lemma_view_len();
    }

    /// The stored cells are as many as the keys of the storage.
    proof fn lemma_view_len(&self)
        ensures
            self@.cells.len() == self.cells@.len(),
            self@.cells.dom().finite(),
    {
        let keys = self.cells@.dom();
        let points = self@.cells.dom();
        let to_point = |k: (isize, isize)| Point { r: k.0 as int, ul: k.1 as int };
        assert(points =~= keys.map(to_point)) by {
            assert forall|p: Point| points.contains(p) implies keys.map(to_point).contains(p) by {
                assert(keys.contains(World::<C>::key(p)));
                assert(to_point(World::<C>::key(p)) == p);
            }
        }
        vstd::set_lib::lemma_map_size(keys, points, to_point);
    }
}

} // verus!
