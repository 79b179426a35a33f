//! What a step of a run comes to: the model that the engine is held to.

use crate::runner::ins::Ins;
use crate::world::cell::{arith_result, cell_of, magnitude_of, ArithError, ArithOp, OverflowPolicy};
use crate::world::{Adj, Axis, Cell, Dir, Point, WorldView};
use vstd::prelude::*;

verus! {

/// A step could not be taken as the instruction asks.
#[derive(PartialEq, Eq, Structural, Clone, Copy, Debug)]
pub enum RunError {
    /// An operation on two cells has no result.
    Arith(ArithError),
    /// The instruction reaches for a position that no coordinate holds.
    OutOfRange,
}

/// What the caller has to offer an instruction that reads the input
/// stream.
#[derive(PartialEq, Eq, Structural, Debug)]
pub enum Input<C> {
    /// Nothing has been read for the instruction.
    Unread,
    /// The next value of the input stream.
    Value(C),
    /// The input stream has no value left.
    Exhausted,
}

impl<C: Copy> Clone for Input<C> {
    fn clone(&self) -> (res: Self)
        ensures
            res == *self,
    {
        *self
    }
}

impl<C: Copy> Copy for Input<C> {

}

/// What a step came to, and what it leaves for the caller to do.
#[derive(PartialEq, Eq, Debug)]
pub enum Step<C> {
    /// The script head stands past the last instruction: the program
    /// has ended, and nothing changed.
    Finished,
    /// The instruction ran, and nothing is left to do.
    Quiet,
    /// A jump ran, alone or under a condition or a choice, and placed the
    /// script head itself: the engine does not move the script head on
    /// by one after this step. Nothing is left to do.
    Jumped,
    /// The instruction ran and wrote a cell to the output half of the
    /// origin: the caller sends its character form to the output
    /// stream.
    Output(C),
    /// The instruction asks for a rendering of the world, which changes
    /// nothing.
    Dump,
    /// The instruction could not run. It counts as a step that changes
    /// nothing in the world; whether the run goes on is the caller's
    /// choice.
    Fault(RunError),
    /// The instruction reads the input half of the origin and nothing
    /// has been read for it: nothing changed. The caller reads the next
    /// value of the input stream and runs the instruction that stands
    /// here, in which no choice is left open, with that value.
    NeedsInput(Ins),
}

/// What the state of a run holds: the index of the next instruction and
/// the world.
pub struct StateView<C> {
    /// The script running head.
    pub script_head: int,
    /// The world to run on.
    pub world: WorldView<C>,
}

impl<C: Cell> WorldView<C> {
    /// The cell that an instruction gets when it reads a point: the
    /// next value of the input stream where the point is the input half
    /// of the origin and the stream has a value, the cell of the world
    /// at that point otherwise. `None` where the instruction reads the
    /// input and nothing has been read for it.
    pub open spec fn fetch(self, p: Point, input: Input<C>) -> Option<C> {
        if self.reads_input(p) {
            match input {
                Input::Unread => None,
                Input::Value(c) => Some(c),
                Input::Exhausted => Some(self.get(p)),
            }
        } else {
            Some(self.get(p))
        }
    }

    /// The world after an instruction has written a cell at a point:
    /// unchanged where the point is the output half of the origin, with
    /// the cell overwritten otherwise.
    pub open spec fn store(self, p: Point, c: C) -> WorldView<C> {
        if self.writes_output(p) {
            self
        } else {
            self.insert(p, c)
        }
    }

    /// Whether the head cell holds zero.
    pub open spec fn head_zero(self) -> bool {
        self.get(self.head).value() == 0
    }

    /// The number of steps that the head cell stands for.
    pub open spec fn head_magnitude(self) -> usize {
        magnitude_of(self.get(self.head).value())
    }
}

impl<C: Cell> StateView<C> {
    /// The state with another world.
    pub open spec fn with_world(self, world: WorldView<C>) -> StateView<C> {
        StateView { script_head: self.script_head, world }
    }

    /// The state with the script head moved on by one.
    pub open spec fn advanced(self) -> StateView<C> {
        StateView {
            script_head: if self.script_head < usize::MAX {
                self.script_head + 1
            } else {
                self.script_head
            },
            world: self.world,
        }
    }

    /// The state after a jump through the code by as many instructions
    /// as the head cell stands for, forward for right and backward for
    /// left, no further than the first instruction and the largest
    /// index.
    pub open spec fn jumped(self, dir: Dir) -> StateView<C> {
        let distance = self.world.head_magnitude();
        StateView {
            script_head: match dir {
                Dir::L => if self.script_head >= distance {
                    self.script_head - distance
                } else {
                    0
                },
                Dir::R => if self.script_head + distance <= usize::MAX {
                    self.script_head + distance
                } else {
                    usize::MAX as int
                },
            },
            world: self.world,
        }
    }

    /// What moving the head to a point comes to: the move, or a fault
    /// where no coordinate holds the point.
    pub open spec fn moved(self, target: Point) -> (StateView<C>, Step<C>) {
        if target.representable() {
            (self.with_world(self.world.with_head(target)), Step::Quiet)
        } else {
            (self, Step::Fault(RunError::OutOfRange))
        }
    }

    /// What an operation on the two cells of an adjacency pair comes
    /// to: the result written at the head.
    pub open spec fn combined(
        self,
        op: ArithOp,
        adj: Adj,
        input: Input<C>,
        policy: OverflowPolicy,
        ins: Ins,
    ) -> (StateView<C>, Step<C>) {
        let world = self.world;
        let (left, right) = world.head.neighbours(adj);
        if !left.representable() || !right.representable() {
            (self, Step::Fault(RunError::OutOfRange))
        } else if world.fetch(left, input) is None || world.fetch(right, input) is None {
            (self, Step::NeedsInput(ins))
        } else {
            let lhs = world.fetch(left, input).unwrap();
            let rhs = world.fetch(right, input).unwrap();
            match arith_result(op, lhs.value(), rhs.value(), C::max_value(), policy) {
                Ok(v) => (self.with_world(world.insert(world.head, cell_of::<C>(v))), Step::Quiet),
                Err(err) => (self, Step::Fault(RunError::Arith(err))),
            }
        }
    }

    /// What swapping the two cells of an adjacency pair comes to: each
    /// written where the other was read, the left one first. The one
    /// written to the output half of the origin is handed to the caller.
    pub open spec fn swapped(self, adj: Adj, input: Input<C>, ins: Ins) -> (
        StateView<C>,
        Step<C>,
    ) {
        let world = self.world;
        let (left, right) = world.head.neighbours(adj);
        if !left.representable() || !right.representable() {
            (self, Step::Fault(RunError::OutOfRange))
        } else if world.fetch(left, input) is None || world.fetch(right, input) is None {
            (self, Step::NeedsInput(ins))
        } else {
            let lhs = world.fetch(left, input).unwrap();
            let rhs = world.fetch(right, input).unwrap();
            (
                self.with_world(world.store(left, rhs).store(right, lhs)),
                if world.writes_output(left) {
                    Step::Output(rhs)
                } else if world.writes_output(right) {
                    Step::Output(lhs)
                } else {
                    Step::Quiet
                },
            )
        }
    }

    /// What running an instruction that holds no other comes to: the
    /// state after it, and what is left for the caller to do. The script
    /// head moves for a jump only, and the result tells of it.
    pub open spec fn performed(self, leaf: Ins, input: Input<C>, policy: OverflowPolicy) -> (
        StateView<C>,
        Step<C>,
    )
        recommends
            leaf.is_leaf(),
    {
        let head = self.world.head;
        match leaf {
            Ins::MoveHeadOne { adj, dir } => self.moved(head.neighbour(adj, dir)),
            Ins::MoveHeadDynamic { adj, dir } => self.moved(
                head.stepped(adj, dir, self.world.head_magnitude() as int),
            ),
            Ins::Add { adj } => self.combined(ArithOp::Add, adj, input, policy, leaf),
            Ins::Sub { adj } => self.combined(ArithOp::Sub, adj, input, policy, leaf),
            Ins::Mul { adj } => self.combined(ArithOp::Mul, adj, input, policy, leaf),
            Ins::SDiv { adj } => self.combined(ArithOp::Div, adj, input, policy, leaf),
            Ins::Swap { adj } => self.swapped(adj, input, leaf),
            Ins::JumpThruCode { dir } => (self.jumped(dir), Step::Jumped),
            Ins::DumpWorld => (self, Step::Dump),
            _ => (self, Step::Quiet),
        }
    }

    /// What a step comes to, once it is known which instruction `leaf`
    /// reaching the instruction of the step comes to running: what
    /// running `leaf` comes to, and then the script head moved on by
    /// one, unless `leaf` waits for input or is a jump, which has placed
    /// the script head itself. A condition and a choice run what stands
    /// under them in place: a jump under them is followed by no move.
    pub open spec fn stepped(self, leaf: Ins, input: Input<C>, policy: OverflowPolicy) -> (
        StateView<C>,
        Step<C>,
    ) {
        let (after, step) = self.performed(leaf, input, policy);
        if step is NeedsInput || step is Jumped {
            (after, step)
        } else {
            (after.advanced(), step)
        }
    }

    /// The state after `n` steps on an instruction that does nothing.
    /// Neither the policy nor what has been read bears on such a step.
    pub open spec fn idled(self, n: nat) -> StateView<C>
        decreases n,
    {
        if n == 0 {
            self
        } else {
            self.idled((n - 1) as nat).stepped(Ins::Noop, Input::Unread, OverflowPolicy::Wrap).0
        }
    }
}

impl<C: Cell> StateView<C> {
    /// An instruction that does nothing changes nothing in the world,
    /// however often it runs and whatever the caller has read for it:
    /// the script head alone moves on, by one for each run, up to the
    /// largest index.
    pub proof fn lemma_idle(self, n: nat, input: Input<C>, policy: OverflowPolicy)
        requires
            0 <= self.script_head <= usize::MAX,
        ensures
            self.stepped(Ins::Noop, input, policy) == (self.advanced(), Step::<C>::Quiet),
            self.idled(n).world == self.world,
            self.idled(n).script_head == if self.script_head + n <= usize::MAX {
                self.script_head + n
            } else {
                usize::MAX as int
            },
        decreases n,
    {
        if n > 0 {
            self.lemma_idle((n - 1) as nat, input, policy);
        }
    }

    /// A condition that does not hold makes a step that changes nothing
    /// in the world, whatever stands under it: an instruction that runs
    /// where the head cell is not zero, met with a head cell that is
    /// zero, and the other way round.
    pub proof fn lemma_condition_fails(
        self,
        ins: Ins,
        leaf: Ins,
        input: Input<C>,
        policy: OverflowPolicy,
    )
        requires
            (ins is IfNotZeroCond && self.world.head_zero()) || (ins is IfZeroCond
                && !self.world.head_zero()),
            ins.resolves_to(self.world.head_zero(), leaf),
        ensures
            leaf == Ins::Noop,
            self.stepped(leaf, input, policy) == (self.advanced(), Step::<C>::Quiet),
    {
    }

    /// A jump places the script head as many instructions further as
    /// the head cell stands for, and the engine does not move it on by
    /// one after that. The world stays as it is.
    pub proof fn lemma_jump(self, dir: Dir, input: Input<C>, policy: OverflowPolicy)
        requires
            0 <= self.script_head <= usize::MAX,
        ensures
            self.stepped(Ins::JumpThruCode { dir }, input, policy) == (
                self.jumped(dir),
                Step::<C>::Jumped,
            ),
            self.jumped(dir).world == self.world,
            dir == Dir::R && self.script_head + self.world.head_magnitude() <= usize::MAX
                ==> self.jumped(dir).script_head == self.script_head
                + self.world.head_magnitude(),
            dir == Dir::L && self.world.head_magnitude() <= self.script_head ==> self.jumped(
                dir,
            ).script_head == self.script_head - self.world.head_magnitude(),
    {
    }

    /// A jump lands where it lands alone when it runs as what a
    /// condition or a choice comes to: the step ends where the jump has
    /// placed the script head, and no move by one follows.
    pub proof fn lemma_jump_in_place(
        self,
        ins: Ins,
        dir: Dir,
        input: Input<C>,
        policy: OverflowPolicy,
    )
        requires
            ins.resolves_to(self.world.head_zero(), Ins::JumpThruCode { dir }),
        ensures
            self.stepped(Ins::JumpThruCode { dir }, input, policy) == (
                self.jumped(dir),
                Step::<C>::Jumped,
            ),
    {
    }

    /// A jump under a condition that holds is all that the condition can
    /// come to, so that the step on the condition ends where the jump
    /// alone would end.
    pub proof fn lemma_jump_under_condition(
        self,
        ins: Ins,
        leaf: Ins,
        dir: Dir,
        input: Input<C>,
        policy: OverflowPolicy,
    )
        requires
            (ins == (Ins::IfNotZeroCond { ins: Box::new(Ins::JumpThruCode { dir }) })
                && !self.world.head_zero()) || (ins == (Ins::IfZeroCond {
                ins: Box::new(Ins::JumpThruCode { dir }),
            }) && self.world.head_zero()),
            ins.resolves_to(self.world.head_zero(), leaf),
        ensures
            leaf == (Ins::JumpThruCode { dir }),
            self.stepped(leaf, input, policy) == (self.jumped(dir), Step::<C>::Jumped),
    {
        reveal_with_fuel(Ins::resolves_to, 3);
    }

    /// The result of running an instruction tells that the script head
    /// was placed exactly where the instruction is a jump, and every
    /// other instruction leaves the script head where it is.
    pub proof fn lemma_jumped(self, leaf: Ins, input: Input<C>, policy: OverflowPolicy)
        requires
            leaf.is_leaf(),
        ensures
            self.performed(leaf, input, policy).1 is Jumped <==> leaf is JumpThruCode,
            !(leaf is JumpThruCode) ==> self.performed(leaf, input, policy).0.script_head
                == self.script_head,
    {
    }

    /// An instruction waits for input only where nothing has been read
    /// for it: with a value of the input stream, or with the word that
    /// the stream has none left, it runs. Where it waits, nothing has
    /// changed, and the instruction that it hands back is itself.
    pub proof fn lemma_input_suffices(self, leaf: Ins, input: Input<C>, policy: OverflowPolicy)
        ensures
            !(input is Unread) ==> !(self.performed(leaf, input, policy).1 is NeedsInput),
            self.performed(leaf, input, policy).1 is NeedsInput ==> self.performed(
                leaf,
                input,
                policy,
            ) == (self, Step::<C>::NeedsInput(leaf)),
            !(input is Unread) ==> !(self.stepped(leaf, input, policy).1 is NeedsInput),
            self.stepped(leaf, input, policy).1 is NeedsInput ==> self.stepped(leaf, input, policy)
                == (self, Step::<C>::NeedsInput(leaf)),
    {
    }

    /// A move of the head by one cell along an axis and the inverse
    /// move after it leave the state as it was. Along the pairs of the
    /// two upper and the two lower neighbours the inverse move is no way
    /// back: it leads to the other member of the pair.
    pub proof fn lemma_move_and_back(
        self,
        axis: Axis,
        dir: Dir,
        input: Input<C>,
        policy: OverflowPolicy,
    )
        requires
            self.world.head.neighbour(axis.adj(), dir).representable(),
            self.world.head.representable(),
        ensures
            self.performed(Ins::MoveHeadOne { adj: axis.adj(), dir }, input, policy).0.performed(
                Ins::MoveHeadOne { adj: axis.adj(), dir }.inverted(),
                input,
                policy,
            ) == (self, Step::<C>::Quiet),
    {
    }
}

} // verus!
