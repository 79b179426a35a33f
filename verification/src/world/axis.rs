//! The three straight lines through a cell of the world.

use crate::world::adj::Adj;
use vstd::prelude::*;
use vstd::std_specs::convert::{FromSpecImpl, TryFromSpecImpl};

verus! {

/// A straight line through a cell: the pairs of [`Adj`] whose members lie
/// opposite each other.
#[derive(PartialEq, Eq, Structural, PartialOrd, Ord, Clone, Copy, Debug)]
pub enum Axis {
    /// Left/right
    /// ```text
    ///  - -
    /// # @ #
    ///  - -
    /// ```
    LR,
    /// Up-left/down-right
    /// ```text
    ///  # -
    /// - @ -
    ///  - #
    /// ```
    ULDR,
    /// Down-left/up-right
    /// ```text
    ///  - #
    /// - @ -
    ///  # -
    /// ```
    DLUR,
}

impl Axis {
    /// The adjacency pair that lies on this axis.
    pub open spec fn adj(self) -> Adj {
        match self {
            Axis::LR => Adj::LR,
            Axis::ULDR => Adj::ULDR,
            Axis::DLUR => Adj::DLUR,
        }
    }

    /// The axis that a character names: `-`, `\` or `/`.
    pub open spec fn of_char(ch: char) -> Option<Axis> {
        if ch == '-' {
            Some(Axis::LR)
        } else if ch == '\\' {
            Some(Axis::ULDR)
        } else if ch == '/' {
            Some(Axis::DLUR)
        } else {
            None
        }
    }

    /// The adjacency pair that lies on this axis.
    pub fn to_adj(self) -> (res: Adj)
        ensures
            res == self.adj(),
    {
        Adj::from(self)
    }

    /// A character names an axis exactly when it names one of the three
    /// adjacency pairs whose members lie opposite each other, and then
    /// the axis and the pair agree.
    pub proof fn lemma_of_char_agrees(ch: char)
        ensures
            match Axis::of_char(ch) {
                Some(axis) => Adj::of_char(ch) == Some(axis.adj()),
                None => Adj::of_char(ch) is None || Adj::of_char(ch) == Some(Adj::U2)
                    || Adj::of_char(ch) == Some(Adj::D2),
            },
    {
    }
}

impl TryFrom<char> for Axis {
    type Error = ();

    fn try_from(ch: char) -> (res: Result<Self, ()>) {
        match ch {
            '-' => Ok(Axis::LR),
            '\\' => Ok(Axis::ULDR),
            '/' => Ok(Axis::DLUR),
            _ => Err(()),
        }
    }
}

impl TryFromSpecImpl<char> for Axis {
    open spec fn obeys_try_from_spec() -> bool {
        true
    }

    open spec fn try_from_spec(ch: char) -> Result<Self, ()> {
        match Axis::of_char(ch) {
            Some(a) => Ok(a),
            None => Err(()),
        }
    }
}

impl From<Axis> for Adj {
    fn from(axis: Axis) -> (res: Adj) {
        match axis {
            Axis::LR => Adj::LR,
            Axis::ULDR => Adj::ULDR,
            Axis::DLUR => Adj::DLUR,
        }
    }
}

impl FromSpecImpl<Axis> for Adj {
    open spec fn obeys_from_spec() -> bool {
        true
    }

    open spec fn from_spec(axis: Axis) -> Adj {
        axis.adj()
    }
}

} // verus!
