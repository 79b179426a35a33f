//! A position in a world.

use crate::world::adj::Adj;
use crate::world::axis::Axis;
use crate::world::dir::Dir;
use core::cmp::Ordering;
use vstd::prelude::*;
use vstd::std_specs::convert::FromSpecImpl;
use vstd::std_specs::ops::{AddSpecImpl, MulSpecImpl, NegSpecImpl, SubSpecImpl};

verus! {

/// A node of the triangular tiling, free of machine limits: what a
/// [`Coord`] denotes.
///
/// The two axes are not orthogonal. `r` counts cells to the right, `ul`
/// counts cells to the up-left.
pub struct Point {
    /// Number of cells in the right direction.
    pub r: int,
    /// Number of cells in the up-left direction.
    pub ul: int,
}

impl Point {
    /// The origin of the world.
    pub open spec fn origin() -> Point {
        Point { r: 0, ul: 0 }
    }

    /// The vector sum of two points.
    pub open spec fn plus(self, other: Point) -> Point {
        Point { r: self.r + other.r, ul: self.ul + other.ul }
    }

    /// The vector difference of two points.
    pub open spec fn minus(self, other: Point) -> Point {
        Point { r: self.r - other.r, ul: self.ul - other.ul }
    }

    /// The point mirrored through the origin.
    pub open spec fn negated(self) -> Point {
        Point { r: -self.r, ul: -self.ul }
    }

    /// The point stretched by a whole factor.
    pub open spec fn scaled(self, k: int) -> Point {
        Point { r: self.r * k, ul: self.ul * k }
    }

    /// Twice the horizontal position of the point. One step to the right
    /// moves a point a whole cell to the right, one step to the up-left
    /// moves it half a cell to the left.
    pub open spec fn twice_x(self) -> int {
        2 * self.r - self.ul
    }

    /// Whether a [`Coord`] can hold this point.
    pub open spec fn representable(self) -> bool {
        &&& isize::MIN <= self.r <= isize::MAX
        &&& isize::MIN <= self.ul <= isize::MAX
    }

    /// The two neighbours of this point that an adjacency pair names, the
    /// left member first.
    pub open spec fn neighbours(self, adj: Adj) -> (Point, Point) {
        (self.plus(adj.left_offset()), self.plus(adj.right_offset()))
    }

    /// The member of a pair of points that a direction selects.
    pub open spec fn pick(pair: (Point, Point), dir: Dir) -> Point {
        match dir {
            Dir::L => pair.0,
            Dir::R => pair.1,
        }
    }

    /// The neighbour of this point that an adjacency pair and a direction
    /// name together.
    pub open spec fn neighbour(self, adj: Adj, dir: Dir) -> Point {
        Point::pick(self.neighbours(adj), dir)
    }

    /// The unit offset that an adjacency pair and a direction name.
    pub open spec fn unit(adj: Adj, dir: Dir) -> Point {
        Point::origin().neighbour(adj, dir)
    }

    /// The point reached from this one by `n` steps towards the
    /// neighbour that an adjacency pair and a direction name.
    pub open spec fn stepped(self, adj: Adj, dir: Dir, n: int) -> Point {
        self.plus(Point::unit(adj, dir).scaled(n))
    }

    /// Whether this point comes before another in the order of the
    /// points: by `r` first, and by `ul` where `r` is the same.
    pub open spec fn precedes(self, other: Point) -> bool {
        self.r < other.r || (self.r == other.r && self.ul < other.ul)
    }

    /// The side of the vertical line through the origin on which the
    /// point lies, if it lies on either.
    pub open spec fn side(self) -> Option<Dir> {
        if self.twice_x() < 0 {
            Some(Dir::L)
        } else if self.twice_x() > 0 {
            Some(Dir::R)
        } else {
            None
        }
    }

    /// The members of an adjacency pair mirror each other across the
    /// vertical line through their centre: the left member lies strictly
    /// to the left of the centre and the right member as far to the
    /// right. A direction selects one member, and the inverted direction
    /// selects the member that the first selects once the pair is
    /// swapped.
    pub proof fn lemma_pair_symmetric(self, adj: Adj, dir: Dir)
        ensures
            self.neighbours(adj).0.twice_x() < self.twice_x() < self.neighbours(adj).1.twice_x(),
            self.neighbours(adj).0.twice_x() + self.neighbours(adj).1.twice_x() == 2
                * self.twice_x(),
            self.neighbour(adj, Dir::L) == self.neighbours(adj).0,
            self.neighbour(adj, Dir::R) == self.neighbours(adj).1,
            self.neighbour(adj, dir.flip()) == Point::pick(
                (self.neighbours(adj).1, self.neighbours(adj).0),
                dir,
            ),
            self.neighbour(adj, dir) != self.neighbour(adj, dir.flip()),
    {
    }

    /// One step towards a neighbour is the step by which that neighbour
    /// is reached, and no step at all leaves a point where it is.
    pub proof fn lemma_stepped_once(self, adj: Adj, dir: Dir)
        ensures
            self.stepped(adj, dir, 1) == self.neighbour(adj, dir),
            self.stepped(adj, dir, 0) == self,
    {
    }

    /// A neighbour of the origin never lies on the vertical line through
    /// it: it lies to the left where the direction is left, to the right
    /// where it is right. Seen from such a neighbour, the origin is the
    /// member of the pair in the opposite direction.
    pub proof fn lemma_origin_has_sides(adj: Adj, dir: Dir)
        ensures
            Point::unit(adj, dir).side() == Some(dir),
            Point::unit(adj, dir).twice_x() == -Point::unit(adj, dir.flip()).twice_x(),
    {
    }
}

/// A position in a world.
///
/// Positive direction is right/up-left.
#[derive(PartialEq, Eq, Structural, PartialOrd, Ord, Clone, Copy, Debug)]
pub struct Coord {
    /// Number of cells to the right direction.
    pub r: isize,
    /// Number of cells to the up-left direction.
    pub ul: isize,
}

impl View for Coord {
    type V = Point;

    open spec fn view(&self) -> Point {
        Point { r: self.r as int, ul: self.ul as int }
    }
}

impl Coord {
    /// The coordinate that holds a representable point.
    pub open spec fn of_point(p: Point) -> Coord
        recommends
            p.representable(),
    {
        Coord { r: p.r as isize, ul: p.ul as isize }
    }

    /// World origin.
    pub fn zero() -> (res: Coord)
        ensures
            res@ == Point::origin(),
    {
        Coord { r: 0, ul: 0 }
    }

    /// One unit left.
    pub fn left() -> (res: Coord)
        ensures
            res@ == Adj::LR.left_offset(),
    {
        Coord { r: -1, ul: 0 }
    }

    /// One unit right.
    pub fn right() -> (res: Coord)
        ensures
            res@ == Adj::LR.right_offset(),
    {
        Coord { r: 1, ul: 0 }
    }

    /// One unit up-left.
    pub fn up_left() -> (res: Coord)
        ensures
            res@ == Adj::ULDR.left_offset(),
    {
        Coord { r: 0, ul: 1 }
    }

    /// One unit down-left.
    pub fn down_left() -> (res: Coord)
        ensures
            res@ == Adj::DLUR.left_offset(),
    {
        Coord { r: -1, ul: -1 }
    }

    /// One unit up-right.
    pub fn up_right() -> (res: Coord)
        ensures
            res@ == Adj::DLUR.right_offset(),
    {
        Coord { r: 1, ul: 1 }
    }

    /// One unit down-right.
    pub fn down_right() -> (res: Coord)
        ensures
            res@ == Adj::ULDR.right_offset(),
    {
        Coord { r: 0, ul: -1 }
    }

    /// The position in the x-direction of the coordinate relative to the
    /// origin: left of it, above or below it, or right of it.
    pub fn relative_pos(&self) -> (res: Ordering)
        ensures
            match res {
                Ordering::Less => self@.twice_x() < 0,
                Ordering::Equal => self@.twice_x() == 0,
                Ordering::Greater => self@.twice_x() > 0,
            },
    {
        // The sign of `2 * r - ul` is that of `r - (ul - r)`, and the
        // inner difference fits whenever both parts have the same sign.
        if self.r >= 0 && self.ul < 0 {
            Ordering::Greater
        } else if self.r < 0 && self.ul >= 0 {
            Ordering::Less
        } else {
            let rest: isize = self.ul - self.r;
            if self.r < rest {
                Ordering::Less
            } else if self.r > rest {
                Ordering::Greater
            } else {
                Ordering::Equal
            }
        }
    }

    /// The side of the origin on which the coordinate lies, if it lies
    /// on either.
    pub fn side(&self) -> (res: Option<Dir>)
        ensures
            res == self@.side(),
    {
        match self.relative_pos() {
            Ordering::Less => Some(Dir::L),
            Ordering::Equal => None,
            Ordering::Greater => Some(Dir::R),
        }
    }

    /// The neighbour along an axis, both given by their characters: the
    /// axis by `-`, `\` or `/`, the direction by `<` or `>`. Any other
    /// character is refused.
    pub fn adjacent(&self, axis: char, sign: char) -> (res: Result<Self, ()>)
        requires
            Axis::of_char(axis) is Some && Dir::of_char(sign) is Some ==> self@.neighbour(
                Axis::of_char(axis).unwrap().adj(),
                Dir::of_char(sign).unwrap(),
            ).representable(),
        ensures
            res is Ok <==> Axis::of_char(axis) is Some && Dir::of_char(sign) is Some,
            res is Ok ==> res.unwrap()@ == self@.neighbour(
                Axis::of_char(axis).unwrap().adj(),
                Dir::of_char(sign).unwrap(),
            ),
    {
        let axis = match Axis::try_from(axis) {
            Ok(axis) => axis,
            Err(_) => {
                return Err(());
            },
        };
        let dir = match Dir::try_from(sign) {
            Ok(dir) => dir,
            Err(_) => {
                return Err(());
            },
        };
        Ok(*self + (axis.to_adj(), dir))
    }

    /// The member of a pair of coordinates that a direction selects.
    pub fn select(pair: (Coord, Coord), dir: Dir) -> (res: Coord)
        ensures
            res@ == Point::pick((pair.0@, pair.1@), dir),
            res == match dir {
                Dir::L => pair.0,
                Dir::R => pair.1,
            },
    {
        match dir {
            Dir::L => pair.0,
            Dir::R => pair.1,
        }
    }

    /// The two neighbours that an adjacency pair names, the left member
    /// first, unless a coordinate cannot hold one of them.
    pub fn checked_neighbours(self, adj: Adj) -> (res: Option<(Coord, Coord)>)
        ensures
            res is Some <==> self@.neighbours(adj).0.representable() && self@.neighbours(
                adj,
            ).1.representable(),
            res is Some ==> res.unwrap().0@ == self@.neighbours(adj).0 && res.unwrap().1@
                == self@.neighbours(adj).1,
    {
        let left = self.checked_add(Coord::from((adj, Dir::L)));
        let right = self.checked_add(Coord::from((adj, Dir::R)));
        match (left, right) {
            (Some(left), Some(right)) => Some((left, right)),
            _ => None,
        }
    }

    /// The vector sum, unless a coordinate cannot hold it.
    pub fn checked_add(self, rhs: Coord) -> (res: Option<Coord>)
        ensures
            res is Some <==> self@.plus(rhs@).representable(),
            res is Some ==> res.unwrap()@ == self@.plus(rhs@),
    {
        match (self.r.checked_add(rhs.r), self.ul.checked_add(rhs.ul)) {
            (Some(r), Some(ul)) => Some(Coord { r, ul }),
            _ => None,
        }
    }

    /// The coordinate stretched by a whole factor, unless a coordinate
    /// cannot hold it.
    pub fn checked_mul(self, rhs: isize) -> (res: Option<Coord>)
        ensures
            res is Some <==> self@.scaled(rhs as int).representable(),
            res is Some ==> res.unwrap()@ == self@.scaled(rhs as int),
    {
        match (self.r.checked_mul(rhs), self.ul.checked_mul(rhs)) {
            (Some(r), Some(ul)) => Some(Coord { r, ul }),
            _ => None,
        }
    }

    /// The coordinate reached by `n` steps towards the neighbour that an
    /// adjacency pair and a direction name, unless a coordinate cannot
    /// hold it.
    pub fn checked_step(self, adj: Adj, dir: Dir, n: usize) -> (res: Option<Coord>)
        ensures
            res is Some <==> self@.stepped(adj, dir, n as int).representable(),
            res is Some ==> res.unwrap()@ == self@.stepped(adj, dir, n as int),
    {
        let unit = Coord::from((adj, dir));
        let r = Coord::offset_by(self.r, unit.r, n);
        let ul = Coord::offset_by(self.ul, unit.ul, n);
        match (r, ul) {
            (Some(r), Some(ul)) => Some(Coord { r, ul }),
            _ => None,
        }
    }

    /// `base + unit * n` for a `unit` of at most one step, unless it
    /// leaves the range of a coordinate.
    fn offset_by(base: isize, unit: isize, n: usize) -> (res: Option<isize>)
        requires
            -1 <= unit <= 1,
        ensures
            res is Some <==> isize::MIN <= base + unit * n <= isize::MAX,
            res is Some ==> res.unwrap() == base + unit * n,
    {
        assert(unit * n == if unit == 0 {
            0
        } else if unit == 1 {
            n as int
        } else {
            -(n as int)
        }) by (nonlinear_arith)
            requires
                -1 <= unit <= 1,
        ;
        let wide: i128 = if unit == 0 {
            base as i128
        } else if unit == 1 {
            base as i128 + n as i128
        } else {
            base as i128 - n as i128
        };
        if isize::MIN as i128 <= wide && wide <= isize::MAX as i128 {
            Some(wide as isize)
        } else {
            None
        }
    }
}

impl core::ops::Add<Coord> for Coord {
    type Output = Coord;

    fn add(self, rhs: Coord) -> (res: Coord) {
        Coord { r: self.r + rhs.r, ul: self.ul + rhs.ul }
    }
}

impl AddSpecImpl<Coord> for Coord {
    open spec fn obeys_add_spec() -> bool {
        true
    }

    open spec fn add_req(self, rhs: Coord) -> bool {
        self@.plus(rhs@).representable()
    }

    open spec fn add_spec(self, rhs: Coord) -> Coord {
        Coord::of_point(self@.plus(rhs@))
    }
}

impl core::ops::Sub<Coord> for Coord {
    type Output = Coord;

    fn sub(self, rhs: Coord) -> (res: Coord) {
        Coord { r: self.r - rhs.r, ul: self.ul - rhs.ul }
    }
}

impl SubSpecImpl<Coord> for Coord {
    open spec fn obeys_sub_spec() -> bool {
        true
    }

    open spec fn sub_req(self, rhs: Coord) -> bool {
        self@.minus(rhs@).representable()
    }

    open spec fn sub_spec(self, rhs: Coord) -> Coord {
        Coord::of_point(self@.minus(rhs@))
    }
}

impl core::ops::Mul<isize> for Coord {
    type Output = Coord;

    fn mul(self, rhs: isize) -> (res: Coord) {
        Coord { r: self.r * rhs, ul: self.ul * rhs }
    }
}

impl MulSpecImpl<isize> for Coord {
    open spec fn obeys_mul_spec() -> bool {
        true
    }

    open spec fn mul_req(self, rhs: isize) -> bool {
        self@.scaled(rhs as int).representable()
    }

    open spec fn mul_spec(self, rhs: isize) -> Coord {
        Coord::of_point(self@.scaled(rhs as int))
    }
}

impl core::ops::Neg for Coord {
    type Output = Coord;

    fn neg(self) -> (res: Coord) {
        Coord { r: -self.r, ul: -self.ul }
    }
}

impl NegSpecImpl for Coord {
    open spec fn obeys_neg_spec() -> bool {
        true
    }

    open spec fn neg_req(self) -> bool {
        self@.negated().representable()
    }

    open spec fn neg_spec(self) -> Coord {
        Coord::of_point(self@.negated())
    }
}

impl core::ops::Add<Adj> for Coord {
    type Output = (Coord, Coord);

    fn add(self, adj: Adj) -> (res: (Coord, Coord)) {
        match adj {
            Adj::LR => (self + Coord::left(), self + Coord::right()),
            Adj::ULDR => (self + Coord::up_left(), self + Coord::down_right()),
            Adj::DLUR => (self + Coord::down_left(), self + Coord::up_right()),
            Adj::U2 => (self + Coord::up_left(), self + Coord::up_right()),
            Adj::D2 => (self + Coord::down_left(), self + Coord::down_right()),
        }
    }
}

impl AddSpecImpl<Adj> for Coord {
    open spec fn obeys_add_spec() -> bool {
        true
    }

    open spec fn add_req(self, adj: Adj) -> bool {
        &&& self@.neighbours(adj).0.representable()
        &&& self@.neighbours(adj).1.representable()
    }

    open spec fn add_spec(self, adj: Adj) -> (Coord, Coord) {
        (Coord::of_point(self@.neighbours(adj).0), Coord::of_point(self@.neighbours(adj).1))
    }
}

impl core::ops::Add<(Adj, Dir)> for Coord {
    type Output = Coord;

    fn add(self, step: (Adj, Dir)) -> (res: Coord) {
        self + Coord::from(step)
    }
}

impl AddSpecImpl<(Adj, Dir)> for Coord {
    open spec fn obeys_add_spec() -> bool {
        true
    }

    open spec fn add_req(self, step: (Adj, Dir)) -> bool {
        self@.neighbour(step.0, step.1).representable()
    }

    open spec fn add_spec(self, step: (Adj, Dir)) -> Coord {
        Coord::of_point(self@.neighbour(step.0, step.1))
    }
}

impl From<(Adj, Dir)> for Coord {
    fn from(value: (Adj, Dir)) -> (res: Coord) {
        Coord::select(Coord::zero() + value.0, value.1)
    }
}

impl FromSpecImpl<(Adj, Dir)> for Coord {
    open spec fn obeys_from_spec() -> bool {
        true
    }

    open spec fn from_spec(value: (Adj, Dir)) -> Coord {
        Coord::of_point(Point::unit(value.0, value.1))
    }
}

impl core::ops::Index<Dir> for (Coord, Coord) {
    type Output = Coord;

    fn index(&self, dir: Dir) -> (res: &Coord)
        ensures
            *res == match dir {
                Dir::L => self.0,
                Dir::R => self.1,
            },
    {
        match dir {
            Dir::L => &self.0,
            Dir::R => &self.1,
        }
    }
}

impl vstd::std_specs::core::IndexSpecImpl<Dir> for (Coord, Coord) {
    open spec fn index_req(&self, dir: &Dir) -> bool {
        true
    }
}

impl core::ops::IndexMut<Dir> for (Coord, Coord) {
    fn index_mut(&mut self, dir: Dir) -> (res: &mut Coord)
        ensures
            *res == match dir {
                Dir::L => old(self).0,
                Dir::R => old(self).1,
            },
            *final(self) == match dir {
                Dir::L => (*final(res), old(self).1),
                Dir::R => (old(self).0, *final(res)),
            },
    {
        match dir {
            Dir::L => &mut self.0,
            Dir::R => &mut self.1,
        }
    }
}

impl core::ops::AddAssign<Coord> for Coord {
    fn add_assign(&mut self, rhs: Coord)
        requires
            old(self)@.plus(rhs@).representable(),
        ensures
            final(self)@ == old(self)@.plus(rhs@),
    {
        *self = *self + rhs;
    }
}

impl core::ops::SubAssign<Coord> for Coord {
    fn sub_assign(&mut self, rhs: Coord)
        requires
            old(self)@.minus(rhs@).representable(),
        ensures
            final(self)@ == old(self)@.minus(rhs@),
    {
        *self = *self - rhs;
    }
}

impl core::ops::MulAssign<isize> for Coord {
    fn mul_assign(&mut self, rhs: isize)
        requires
            old(self)@.scaled(rhs as int).representable(),
        ensures
            final(self)@ == old(self)@.scaled(rhs as int),
    {
        *self = *self * rhs;
    }
}

impl core::ops::AddAssign<(Adj, Dir)> for Coord {
    fn add_assign(&mut self, step: (Adj, Dir))
        requires
            old(self)@.neighbour(step.0, step.1).representable(),
        ensures
            final(self)@ == old(self)@.neighbour(step.0, step.1),
    {
        *self = *self + step;
    }
}

} // verus!
