//! Which instruction runs when an instruction is reached.

use crate::runner::ins::Ins;
use crate::world::cell::ArithOp;
use crate::world::Adj;
use vstd::prelude::*;

verus! {

impl Ins {
    /// Whether the instruction holds no other instruction.
    pub open spec fn is_leaf(self) -> bool {
        !(self is IfNotZeroCond || self is IfZeroCond || self is RandomlyChoose)
    }

    /// Whether reaching the instruction, with the head cell zero or
    /// not, can come to running `leaf`. A condition that does not hold
    /// comes to no operation, a condition that holds to what the
    /// instruction under it comes to, and a choice at random to what
    /// either of its two instructions comes to.
    pub open spec fn resolves_to(self, head_zero: bool, leaf: Ins) -> bool
        decreases self,
    {
        match self {
            Ins::IfNotZeroCond { ins } => if head_zero {
                leaf == Ins::Noop
            } else {
                ins.resolves_to(head_zero, leaf)
            },
            Ins::IfZeroCond { ins } => if head_zero {
                ins.resolves_to(head_zero, leaf)
            } else {
                leaf == Ins::Noop
            },
            Ins::RandomlyChoose { options } => options.0.resolves_to(head_zero, leaf)
                || options.1.resolves_to(head_zero, leaf),
            _ => leaf == self,
        }
    }

    /// What reaching the instruction comes to running when the choices
    /// at random fall as `coins` say, one coin for each choice that is
    /// reached, `true` for the first of the two instructions. `None`
    /// where the coins run out.
    pub open spec fn resolved_by(self, head_zero: bool, coins: Seq<bool>) -> Option<Ins>
        decreases self,
    {
        match self {
            Ins::IfNotZeroCond { ins } => if head_zero {
                Some(Ins::Noop)
            } else {
                ins.resolved_by(head_zero, coins)
            },
            Ins::IfZeroCond { ins } => if head_zero {
                ins.resolved_by(head_zero, coins)
            } else {
                Some(Ins::Noop)
            },
            Ins::RandomlyChoose { options } => if coins.len() == 0 {
                None
            } else if coins[0] {
                options.0.resolved_by(head_zero, coins.drop_first())
            } else {
                options.1.resolved_by(head_zero, coins.drop_first())
            },
            _ => Some(self),
        }
    }

    /// The operation on two cells that the instruction stands for.
    pub open spec fn arith_op(self) -> Option<(ArithOp, Adj)> {
        match self {
            Ins::Add { adj } => Some((ArithOp::Add, adj)),
            Ins::Sub { adj } => Some((ArithOp::Sub, adj)),
            Ins::Mul { adj } => Some((ArithOp::Mul, adj)),
            Ins::SDiv { adj } => Some((ArithOp::Div, adj)),
            _ => None,
        }
    }

    /// What is reached comes to running an instruction that holds no
    /// other, and one that holds no other comes to running itself.
    pub proof fn lemma_resolves_to_leaf(self, head_zero: bool, leaf: Ins)
        requires
            self.resolves_to(head_zero, leaf),
        ensures
            leaf.is_leaf(),
            self.is_leaf() ==> leaf == self,
            leaf.resolves_to(head_zero, leaf),
        decreases self,
    {
        match self {
            Ins::IfNotZeroCond { ins } => {
                if !head_zero {
                    ins.lemma_resolves_to_leaf(head_zero, leaf);
                }
            },
            Ins::IfZeroCond { ins } => {
                if head_zero {
                    ins.lemma_resolves_to_leaf(head_zero, leaf);
                }
            },
            Ins::RandomlyChoose { options } => {
                if options.0.resolves_to(head_zero, leaf) {
                    options.0.lemma_resolves_to_leaf(head_zero, leaf);
                } else {
                    options.1.lemma_resolves_to_leaf(head_zero, leaf);
                }
            },
            _ => {},
        }
    }

    /// However the coins fall, what they come to is something that
    /// reaching the instruction can come to.
    pub proof fn lemma_resolved_by(self, head_zero: bool, coins: Seq<bool>)
        ensures
            self.resolved_by(head_zero, coins) is Some ==> self.resolves_to(
                head_zero,
                self.resolved_by(head_zero, coins).unwrap(),
            ),
        decreases self,
    {
        match self {
            Ins::IfNotZeroCond { ins } => {
                ins.lemma_resolved_by(head_zero, coins);
            },
            Ins::IfZeroCond { ins } => {
                ins.lemma_resolved_by(head_zero, coins);
            },
            Ins::RandomlyChoose { options } => {
                if coins.len() > 0 {
                    options.0.lemma_resolved_by(head_zero, coins.drop_first());
                    options.1.lemma_resolved_by(head_zero, coins.drop_first());
                }
            },
            _ => {},
        }
    }

    /// Whatever reaching the instruction can come to, some fall of the
    /// coins comes to it.
    pub proof fn lemma_some_coins(self, head_zero: bool, leaf: Ins) -> (coins: Seq<bool>)
        requires
            self.resolves_to(head_zero, leaf),
        ensures
            self.resolved_by(head_zero, coins) == Some(leaf),
        decreases self,
    {
        match self {
            Ins::IfNotZeroCond { ins } => {
                if head_zero {
                    Seq::empty()
                } else {
                    ins.lemma_some_coins(head_zero, leaf)
                }
            },
            Ins::IfZeroCond { ins } => {
                if head_zero {
                    ins.lemma_some_coins(head_zero, leaf)
                } else {
                    Seq::empty()
                }
            },
            Ins::RandomlyChoose { options } => {
                let first = options.0.resolves_to(head_zero, leaf);
                let rest = if first {
                    options.0.lemma_some_coins(head_zero, leaf)
                } else {
                    options.1.lemma_some_coins(head_zero, leaf)
                };
                let coins = seq![first] + rest;
                assert(coins.drop_first() =~= rest);
                coins
            },
            _ => Seq::empty(),
        }
    }

    /// The instruction that a coin selects of the two of a choice at
    /// random: the first for `true`, the second for `false`.
    pub fn option_for(options: &(Ins, Ins), coin: bool) -> (res: &Ins)
        ensures
            *res == if coin {
                options.0
            } else {
                options.1
            },
    {
        if coin {
            &options.0
        } else {
            &options.1
        }
    }

    /// What reaching the instruction comes to running, each choice at
    /// random made afresh.
    pub fn resolve(&self, head_zero: bool) -> (res: Ins)
        ensures
            self.resolves_to(head_zero, res),
        decreases self,
    {
        match self {
            Ins::IfNotZeroCond { ins } => {
                if head_zero {
                    Ins::Noop
                } else {
                    ins.resolve(head_zero)
                }
            },
            Ins::IfZeroCond { ins } => {
                if head_zero {
                    ins.resolve(head_zero)
                } else {
                    Ins::Noop
                }
            },
            Ins::RandomlyChoose { options } => {
                let coin = random_bool();
                Ins::option_for(options, coin).resolve(head_zero)
            },
            _ => self.clone(),
        }
    }

    /// What reaching the instruction comes to running when the choices
    /// at random fall as `coins` say. `None` where the coins run out.
    pub fn resolve_with(&self, head_zero: bool, coins: &[bool]) -> (res: Option<Ins>)
        ensures
            res == self.resolved_by(head_zero, coins@),
    {
        assert(coins@.subrange(0, coins@.len() as int) =~= coins@);
        self.resolve_from(head_zero, coins, 0)
    }

    /// [`Ins::resolve_with`] on the coins from an index on.
    fn resolve_from(&self, head_zero: bool, coins: &[bool], from: usize) -> (res: Option<Ins>)
        requires
            from <= coins@.len(),
        ensures
            res == self.resolved_by(head_zero, coins@.subrange(from as int, coins@.len() as int)),
        decreases self,
    {
        let ghost left = coins@.subrange(from as int, coins@.len() as int);
        match self {
            Ins::IfNotZeroCond { ins } => {
                if head_zero {
                    Some(Ins::Noop)
                } else {
                    ins.resolve_from(head_zero, coins, from)
                }
            },
            Ins::IfZeroCond { ins } => {
                if head_zero {
                    ins.resolve_from(head_zero, coins, from)
                } else {
                    Some(Ins::Noop)
                }
            },
            Ins::RandomlyChoose { options } => {
                if from >= coins.len() {
                    None
                } else {
                    assert(left.drop_first() =~= coins@.subrange(
                        from as int + 1,
                        coins@.len() as int,
                    ));
                    Ins::option_for(options, coins[from]).resolve_from(head_zero, coins, from + 1)
                }
            },
            _ => Some(self.clone()),
        }
    }
}

/// `rand::random::<bool>()`: a boolean from the random number generator
/// of the running thread. Nothing is claimed of the value: a caller is
/// verified for both. The generator is seeded from the operating system
/// when the thread first asks, again after every 64 KiB that it has
/// given out, and again after a fork. The call panics where the system
/// refuses the seed; nothing that a caller passes can bring that about
/// or keep it out.
#[verifier::external_body]
fn random_bool() -> (coin: bool) {
    rand::random::<bool>()
}

impl Ins {
    /// The instruction that stands for an operation on the two cells of
    /// an adjacency pair.
    pub fn of_arith(op: ArithOp, adj: Adj) -> (res: Ins)
        ensures
            res.arith_op() == Some((op, adj)),
            res.is_leaf(),
    {
        match op {
            ArithOp::Add => Ins::Add { adj },
            ArithOp::Sub => Ins::Sub { adj },
            ArithOp::Mul => Ins::Mul { adj },
            ArithOp::Div => Ins::SDiv { adj },
        }
    }
}

} // verus!
