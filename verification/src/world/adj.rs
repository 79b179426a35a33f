//! Pairs of adjacent cells in the world.

use crate::world::coord::Point;
use vstd::prelude::*;
use vstd::std_specs::convert::TryFromSpecImpl;

verus! {

/// Pairs of adjacent cells in the world.
///
/// Every pair names two of the six neighbours of a centre `@`: a left
/// member, which lies strictly to the left of the centre, and a right
/// member, which lies as far to the right of it.
#[derive(PartialEq, Eq, Structural, PartialOrd, Ord, Clone, Copy, Debug)]
pub enum Adj {
    /// Left/right
    /// ```text
    ///  . .
    /// + @ +
    ///  . .
    /// ```
    LR,
    /// Up-left/down-right
    /// ```text
    ///  + .
    /// . @ .
    ///  . +
    /// ```
    ULDR,
    /// Down-left/up-right
    /// ```text
    ///  . +
    /// . @ .
    ///  + .
    /// ```
    DLUR,
    /// Up-left/up-right
    /// ```text
    ///  + +
    /// . @ .
    ///  . .
    /// ```
    U2,
    /// Down-left/down-right
    /// ```text
    ///  . .
    /// . @ .
    ///  + +
    /// ```
    D2,
}

impl Adj {
    /// The unit offset from a centre to the left member of the pair.
    pub open spec fn left_offset(self) -> Point {
        match self {
            Adj::LR => Point { r: -1, ul: 0 },
            Adj::ULDR => Point { r: 0, ul: 1 },
            Adj::DLUR => Point { r: -1, ul: -1 },
            Adj::U2 => Point { r: 0, ul: 1 },
            Adj::D2 => Point { r: -1, ul: -1 },
        }
    }

    /// The unit offset from a centre to the right member of the pair.
    pub open spec fn right_offset(self) -> Point {
        match self {
            Adj::LR => Point { r: 1, ul: 0 },
            Adj::ULDR => Point { r: 0, ul: -1 },
            Adj::DLUR => Point { r: 1, ul: 1 },
            Adj::U2 => Point { r: 1, ul: 1 },
            Adj::D2 => Point { r: 0, ul: -1 },
        }
    }

    /// The pair that a character names: `-` is [`Adj::LR`], `\` is
    /// [`Adj::ULDR`], `/` is [`Adj::DLUR`], `^` is [`Adj::U2`] and `v` is
    /// [`Adj::D2`].
    pub open spec fn of_char(ch: char) -> Option<Adj> {
        if ch == '-' {
            Some(Adj::LR)
        } else if ch == '\\' {
            Some(Adj::ULDR)
        } else if ch == '/' {
            Some(Adj::DLUR)
        } else if ch == '^' {
            Some(Adj::U2)
        } else if ch == 'v' {
            Some(Adj::D2)
        } else {
            None
        }
    }
}

impl TryFrom<char> for Adj {
    type Error = ();

    fn try_from(ch: char) -> (res: Result<Self, ()>) {
        match ch {
            '-' => Ok(Adj::LR),
            '\\' => Ok(Adj::ULDR),
            '/' => Ok(Adj::DLUR),
            '^' => Ok(Adj::U2),
            'v' => Ok(Adj::D2),
            _ => Err(()),
        }
    }
}

impl TryFromSpecImpl<char> for Adj {
    open spec fn obeys_try_from_spec() -> bool {
        true
    }

    open spec fn try_from_spec(ch: char) -> Result<Self, ()> {
        match Adj::of_char(ch) {
            Some(a) => Ok(a),
            None => Err(()),
        }
    }
}

} // verus!
