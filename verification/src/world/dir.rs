//! A sideways direction in the world.

use vstd::prelude::*;
use vstd::std_specs::convert::TryFromSpecImpl;
use vstd::std_specs::ops::NegSpecImpl;

verus! {

/// A sideways direction in the world.
#[derive(PartialEq, Eq, Structural, PartialOrd, Ord, Clone, Copy, Debug)]
pub enum Dir {
    /// Left
    L,
    /// Right
    R,
}

impl Dir {
    /// The opposite direction.
    pub open spec fn flip(self) -> Dir {
        match self {
            Dir::L => Dir::R,
            Dir::R => Dir::L,
        }
    }

    /// The direction that a character names: `<` is left, `>` is right.
    pub open spec fn of_char(ch: char) -> Option<Dir> {
        if ch == '<' {
            Some(Dir::L)
        } else if ch == '>' {
            Some(Dir::R)
        } else {
            None
        }
    }

    /// Flipping a direction twice gives it back, and a flipped direction
    /// is never the direction itself.
    pub proof fn lemma_flip_involution(self)
        ensures
            self.flip().flip() == self,
            self.flip() != self,
    {
    }
}

impl TryFrom<char> for Dir {
    type Error = ();

    fn try_from(ch: char) -> (res: Result<Self, ()>) {
        match ch {
            '<' => Ok(Dir::L),
            '>' => Ok(Dir::R),
            _ => Err(()),
        }
    }
}

impl TryFromSpecImpl<char> for Dir {
    open spec fn obeys_try_from_spec() -> bool {
        true
    }

    open spec fn try_from_spec(ch: char) -> Result<Self, ()> {
        match Dir::of_char(ch) {
            Some(d) => Ok(d),
            None => Err(()),
        }
    }
}

impl core::ops::Neg for Dir {
    type Output = Dir;

    fn neg(self) -> (res: Dir) {
        match self {
            Dir::L => Dir::R,
            Dir::R => Dir::L,
        }
    }
}

impl NegSpecImpl for Dir {
    open spec fn obeys_neg_spec() -> bool {
        true
    }

    open spec fn neg_req(self) -> bool {
        true
    }

    open spec fn neg_spec(self) -> Dir {
        self.flip()
    }
}

} // verus!
