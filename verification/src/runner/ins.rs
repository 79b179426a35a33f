//! The Isolang instruction set.

use crate::world::{Adj, Dir};
use core::ops::Neg;
use vstd::prelude::*;

verus! {

/// A modifier for an instruction.
#[derive(PartialEq, Eq, Structural, PartialOrd, Ord, Clone, Copy, Debug)]
pub struct InsMod {
    /// The kind of instruction modifier.
    pub kind: InsModKind,
    /// If `true`, randomly choose whether this modifier is applied or not.
    pub random_maybe: bool,
}

/// The kind of modifier for an instruction.
#[derive(PartialEq, Eq, Structural, PartialOrd, Ord, Clone, Copy, Debug)]
pub enum InsModKind {
    /// Inverts an instruction.
    Invert,
    /// Makes the instruction only run if the cell at the world head is not zero.
    IfNotZeroCond,
    /// Skips the instruction, ie it is not run
    Skip,
}

/// A runnable instruction and its arguments.
#[derive(PartialEq, Eq, PartialOrd, Ord, Debug)]
pub enum Ins {
    /// Moves the head left or right a single cell on an adj.
    MoveHeadOne {
        /// The adj to move along.
        adj: Adj,
        /// Whether to move left or right.
        dir: Dir,
    },
    /// Moves the head left or right some number of cells on an adj.
    /// The distance depends on the value in the cell at the world head.
    MoveHeadDynamic {
        /// The adj to move along.
        adj: Adj,
        /// Whether to move left or right.
        dir: Dir,
    },
    /// Adds the two cells targeted by the adj and stores it at the world head.
    Add {
        /// The adj on which the two cells fall.
        adj: Adj,
    },
    /// Subtracts the two cells targeted by the adj (left minus right) and
    /// stores it at the world head.
    Sub {
        /// The adj on which the two cells fall.
        adj: Adj,
    },
    /// Multiplies the two cells targeted by the adj and stores it at the world head.
    Mul {
        /// The adj on which the two cells fall.
        adj: Adj,
    },
    /// Divides the two cells targeted by the adj (left divided by right)
    /// and stores it at the world head. Cells are unsigned, so the
    /// quotient is rounded towards zero.
    SDiv {
        /// The adj on which the two cells fall.
        adj: Adj,
    },
    /// Swaps the two cells targeted by the adj.
    Swap {
        /// The adj on which the two cells fall.
        adj: Adj,
    },
    /// Does nothing, but counts towards the instruction length.
    Noop,
    /// Jumps through code a number of instructions equal to the current cell.
    JumpThruCode {
        /// R is forward in code, L is backward in code
        dir: Dir,
    },
    /// Runs the contained instruction if the cell at the world head is not zero.
    IfNotZeroCond {
        /// The instruction to conditionally run.
        ins: Box<Ins>,
    },
    /// Runs the contained instruction if the cell at the world head is zero.
    IfZeroCond {
        /// The instruction to conditionally run.
        ins: Box<Ins>,
    },
    /// Runs one of two contained instruction at random.
    RandomlyChoose {
        /// The two instructions to randomly choose between.
        options: Box<(Ins, Ins)>,
    },
    /// Dumps the current world state to the console.
    DumpWorld,
}

/// An instruction that can not be inverted was inverted.
#[derive(PartialEq, Eq, Structural, Clone, Copy, Debug)]
pub struct BadInvertError;

impl Clone for Ins {
    fn clone(&self) -> (res: Self)
        ensures
            res == *self,
        decreases self,
    {
        match self {
            Ins::MoveHeadOne { adj, dir } => Ins::MoveHeadOne { adj: *adj, dir: *dir },
            Ins::MoveHeadDynamic { adj, dir } => Ins::MoveHeadDynamic { adj: *adj, dir: *dir },
            Ins::Add { adj } => Ins::Add { adj: *adj },
            Ins::Sub { adj } => Ins::Sub { adj: *adj },
            Ins::Mul { adj } => Ins::Mul { adj: *adj },
            Ins::SDiv { adj } => Ins::SDiv { adj: *adj },
            Ins::Swap { adj } => Ins::Swap { adj: *adj },
            Ins::Noop => Ins::Noop,
            Ins::JumpThruCode { dir } => Ins::JumpThruCode { dir: *dir },
            Ins::IfNotZeroCond { ins } => Ins::IfNotZeroCond { ins: Box::new((&**ins).clone()) },
            Ins::IfZeroCond { ins } => Ins::IfZeroCond { ins: Box::new((&**ins).clone()) },
            Ins::RandomlyChoose { options } => Ins::RandomlyChoose {
                options: Box::new(((&options.0).clone(), (&options.1).clone())),
            },
            Ins::DumpWorld => Ins::DumpWorld,
        }
    }
}

impl Ins {
    /// Whether the instruction has an inverse. Swapping, doing nothing,
    /// choosing at random and dumping the world have none.
    pub open spec fn invertible(self) -> bool {
        !(self is Swap || self is Noop || self is RandomlyChoose || self is DumpWorld)
    }

    /// The inverse of an invertible instruction: a move or a jump in the
    /// opposite direction, subtraction for addition, division for
    /// multiplication, the opposite condition on the same instruction,
    /// and each the other way round.
    pub open spec fn inverted(self) -> Ins
        recommends
            self.invertible(),
    {
        match self {
            Ins::MoveHeadOne { adj, dir } => Ins::MoveHeadOne { adj, dir: dir.flip() },
            Ins::MoveHeadDynamic { adj, dir } => Ins::MoveHeadDynamic { adj, dir: dir.flip() },
            Ins::Add { adj } => Ins::Sub { adj },
            Ins::Sub { adj } => Ins::Add { adj },
            Ins::Mul { adj } => Ins::SDiv { adj },
            Ins::SDiv { adj } => Ins::Mul { adj },
            Ins::JumpThruCode { dir } => Ins::JumpThruCode { dir: dir.flip() },
            Ins::IfZeroCond { ins } => Ins::IfNotZeroCond { ins },
            Ins::IfNotZeroCond { ins } => Ins::IfZeroCond { ins },
            other => other,
        }
    }

    /// What one kind of modifier makes of the instruction, where it
    /// applies: its inverse, the instruction under the condition that
    /// the head cell is not zero, or no operation in its place.
    pub open spec fn transformed(self, kind: InsModKind) -> Option<Ins> {
        match kind {
            InsModKind::Invert => if self.invertible() {
                Some(self.inverted())
            } else {
                None
            },
            InsModKind::IfNotZeroCond => Some(Ins::IfNotZeroCond { ins: Box::new(self) }),
            InsModKind::Skip => Some(Ins::Noop),
        }
    }

    /// What a modifier makes of the instruction, where it applies: the
    /// transformed instruction, or, for a modifier that applies at
    /// random, the choice between the instruction as it was and the
    /// transformed one, in that order.
    pub open spec fn modified(self, modifier: InsMod) -> Option<Ins> {
        match self.transformed(modifier.kind) {
            Some(ins) => if modifier.random_maybe {
                Some(Ins::RandomlyChoose { options: Box::new((self, ins)) })
            } else {
                Some(ins)
            },
            None => None,
        }
    }

    /// What a chain of modifiers makes of the instruction, each applied
    /// to the result of the one before, where they all apply.
    pub open spec fn modified_all(self, modifiers: Seq<InsMod>) -> Option<Ins>
        decreases modifiers.len(),
    {
        if modifiers.len() == 0 {
            Some(self)
        } else {
            match self.modified(modifiers[0]) {
                Some(ins) => ins.modified_all(modifiers.subrange(1, modifiers.len() as int)),
                None => None,
            }
        }
    }

    /// Inverts the instruction.
    pub fn invert(self) -> (res: Result<Self, BadInvertError>)
        ensures
            res is Ok <==> self.invertible(),
            res is Ok ==> res.unwrap() == self.inverted(),
    {
        match self {
            Ins::MoveHeadOne { adj, dir } => Ok(Ins::MoveHeadOne { adj, dir: dir.neg() }),
            Ins::MoveHeadDynamic { adj, dir } => Ok(Ins::MoveHeadDynamic { adj, dir: dir.neg() }),
            Ins::Add { adj } => Ok(Ins::Sub { adj }),
            Ins::Sub { adj } => Ok(Ins::Add { adj }),
            Ins::Mul { adj } => Ok(Ins::SDiv { adj }),
            Ins::SDiv { adj } => Ok(Ins::Mul { adj }),
            Ins::Swap { .. } => Err(BadInvertError),
            Ins::Noop => Err(BadInvertError),
            Ins::JumpThruCode { dir } => Ok(Ins::JumpThruCode { dir: dir.neg() }),
            Ins::IfZeroCond { ins } => Ok(Ins::IfNotZeroCond { ins }),
            Ins::IfNotZeroCond { ins } => Ok(Ins::IfZeroCond { ins }),
            Ins::RandomlyChoose { .. } => Err(BadInvertError),
            Ins::DumpWorld => Err(BadInvertError),
        }
    }

    /// Applies an instruction modifier to this instruction.
    pub fn modify(self, modifier: InsMod) -> (res: Result<Self, BadInvertError>)
        ensures
            res is Ok <==> self.modified(modifier) is Some,
            res is Ok ==> Some(res.unwrap()) == self.modified(modifier),
            res is Err <==> modifier.kind == InsModKind::Invert && !self.invertible(),
    {
        if modifier.random_maybe {
            let unmodified = self.clone();
            match self.transform(modifier.kind) {
                Ok(ins) => Ok(Ins::RandomlyChoose { options: Box::new((unmodified, ins)) }),
                Err(err) => Err(err),
            }
        } else {
            self.transform(modifier.kind)
        }
    }

    /// Applies one kind of modifier to this instruction.
    fn transform(self, kind: InsModKind) -> (res: Result<Self, BadInvertError>)
        ensures
            res is Ok <==> self.transformed(kind) is Some,
            res is Ok ==> Some(res.unwrap()) == self.transformed(kind),
    {
        match kind {
            InsModKind::Invert => self.invert(),
            InsModKind::IfNotZeroCond => Ok(Ins::IfNotZeroCond { ins: Box::new(self) }),
            InsModKind::Skip => Ok(Ins::Noop),
        }
    }

    /// Inverting an invertible instruction gives an invertible
    /// instruction, and inverting that gives the first one back.
    pub proof fn lemma_invert_involution(self)
        requires
            self.invertible(),
        ensures
            self.inverted().invertible(),
            self.inverted().inverted() == self,
            self.inverted() != self,
    {
    }

    /// The one modifier that can fail is inversion, and it fails exactly
    /// on the instructions without an inverse, at random or not.
    pub proof fn lemma_modified_fails(self, modifier: InsMod)
        ensures
            self.modified(modifier) is None <==> modifier.kind == InsModKind::Invert
                && !self.invertible(),
    {
    }

    /// Inverting first and then making conditional runs the inverse
    /// where the head cell is not zero. Making conditional first and
    /// inverting then turns the condition round instead and leaves the
    /// instruction as it was.
    pub proof fn lemma_modifier_order(self)
        requires
            self.invertible(),
        ensures
            self.modified_all(
                seq![
                    InsMod { kind: InsModKind::Invert, random_maybe: false },
                    InsMod { kind: InsModKind::IfNotZeroCond, random_maybe: false },
                ],
            ) == Some(Ins::IfNotZeroCond { ins: Box::new(self.inverted()) }),
            self.modified_all(
                seq![
                    InsMod { kind: InsModKind::IfNotZeroCond, random_maybe: false },
                    InsMod { kind: InsModKind::Invert, random_maybe: false },
                ],
            ) == Some(Ins::IfZeroCond { ins: Box::new(self) }),
    {
        let invert = InsMod { kind: InsModKind::Invert, random_maybe: false };
        let cond = InsMod { kind: InsModKind::IfNotZeroCond, random_maybe: false };
        reveal_with_fuel(Ins::modified_all, 3);
        assert(seq![invert, cond].subrange(1, 2) =~= seq![cond]);
        assert(seq![cond, invert].subrange(1, 2) =~= seq![invert]);
        assert(seq![cond].subrange(1, 1) =~= Seq::<InsMod>::empty());
        assert(seq![invert].subrange(1, 1) =~= Seq::<InsMod>::empty());
    }
}

} // verus!
