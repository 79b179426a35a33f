//! Isolang script runner.

pub mod ins;
pub mod model;
pub mod resolve;

pub use ins::{BadInvertError, Ins, InsMod, InsModKind};
pub use model::{Input, RunError, StateView, Step};

use crate::world::cell::{lemma_cell_of, ArithOp, OverflowPolicy};
use crate::world::{Adj, Cell, Coord, Dir, Point, World, WorldView};
use vstd::prelude::*;

verus! {

impl<C: Cell> World<C> {
    /// The cell that an instruction gets when it reads a coordinate.
    /// `None` where the instruction reads the input and nothing has
    /// been read for it.
    pub fn fetch(&self, coord: Coord, input: Input<C>) -> (res: Option<C>)
        ensures
            res == self@.fetch(coord@, input),
    {
        if self.reads_input(coord) {
            match input {
                Input::Unread => None,
                Input::Value(cell) => Some(cell),
                Input::Exhausted => Some(self.get(coord)),
            }
        } else {
            Some(self.get(coord))
        }
    }

    /// Writes a cell at a coordinate for an instruction. Returns the
    /// cell where it goes to the output stream and not into the world.
    pub fn store(&mut self, coord: Coord, cell: C) -> (res: Option<C>)
        ensures
            final(self)@ == old(self)@.store(coord@, cell),
            res == if old(self)@.writes_output(coord@) {
                Some(cell)
            } else {
                None
            },
            old(self).wf() ==> final(self).wf(),
    {
        if self.writes_output(coord) {
            Some(cell)
        } else {
            self.insert(coord, cell);
            None
        }
    }
}

/// The state of a [`ScriptRunner`].
pub struct ScriptRunnerState<C: Cell> {
    /// The script running head.
    script_head: usize,
    /// The world to run on.
    world: World<C>,
    /// What becomes of a result that a cell cannot hold.
    policy: OverflowPolicy,
}

impl<C: Cell> View for ScriptRunnerState<C> {
    type V = StateView<C>;

    closed spec fn view(&self) -> StateView<C> {
        StateView { script_head: self.script_head as int, world: self.world@ }
    }
}

impl<C: Cell> ScriptRunnerState<C> {
    /// What becomes of a result that a cell cannot hold.
    pub closed spec fn policy(&self) -> OverflowPolicy {
        self.policy
    }

    /// The invariant of a state: the script head is an index, and no
    /// stored cell holds one. A new state has it and every method keeps
    /// it.
    pub open spec fn wf(&self) -> bool {
        &&& 0 <= self@.script_head <= usize::MAX
        &&& self@.world.sparse()
    }

    /// The state before the first step: the script head on the first
    /// instruction, the head at the origin of an empty world.
    pub fn new(policy: OverflowPolicy) -> (res: Self)
        ensures
            res@ == (StateView { script_head: 0, world: WorldView::<C>::empty() }),
            res.policy() == policy,
            res.wf(),
    {
        ScriptRunnerState { script_head: 0, world: World::new(), policy }
    }

    /// The index of the next instruction.
    pub fn script_head(&self) -> (res: usize)
        ensures
            res == self@.script_head,
    {
        self.script_head
    }

    /// Places the script head on an instruction.
    pub fn set_script_head(&mut self, script_head: usize)
        ensures
            final(self)@ == (StateView {
                script_head: script_head as int,
                world: old(self)@.world,
            }),
            final(self).policy() == old(self).policy(),
            old(self).wf() ==> final(self).wf(),
    {
        self.script_head = script_head;
    }

    /// The world of the run.
    pub fn world(&self) -> (res: &World<C>)
        ensures
            res@ == self@.world,
    {
        &self.world
    }

    /// The world of the run, to be changed.
    pub fn world_mut(&mut self) -> (res: &mut World<C>)
        ensures
            (*res)@ == old(self)@.world,
            final(self)@ == old(self)@.with_world((*final(res))@),
            final(self).policy() == old(self).policy(),
    {
        &mut self.world
    }

    /// Moves the head to where a step leads, if a coordinate holds the
    /// place.
    fn move_head(&mut self, target: Option<Coord>, Ghost(point): Ghost<Point>) -> (res: Step<C>)
        requires
            target is Some <==> point.representable(),
            target is Some ==> target.unwrap()@ == point,
        ensures
            (final(self)@, res) == old(self)@.moved(point),
            final(self).policy() == old(self).policy(),
            old(self).wf() ==> final(self).wf(),
    {
        match target {
            Some(coord) => {
                self.world.set_head(coord);
                Step::Quiet
            },
            None => Step::Fault(RunError::OutOfRange),
        }
    }

    /// Runs an operation on the two cells currently targeted by `adj`,
    /// and writes the result at the head.
    fn run_binop(&mut self, adj: Adj, op: ArithOp, input: Input<C>, Ghost(ins): Ghost<Ins>) -> (res:
        Step<C>)
        requires
            ins.arith_op() == Some((op, adj)),
        ensures
            (final(self)@, res) == old(self)@.combined(op, adj, input, old(self).policy(), ins),
            final(self).policy() == old(self).policy(),
            old(self).wf() ==> final(self).wf(),
    {
        let head = self.world.head();
        let (l, r) = match head.checked_neighbours(adj) {
            Some(pair) => pair,
            None => {
                return Step::Fault(RunError::OutOfRange);
            },
        };
        let (lhs, rhs) = match (self.world.fetch(l, input), self.world.fetch(r, input)) {
            (Some(lhs), Some(rhs)) => (lhs, rhs),
            _ => {
                return Step::NeedsInput(Ins::of_arith(op, adj));
            },
        };
        let result = match op {
            ArithOp::Add => lhs.sum(rhs, self.policy),
            ArithOp::Sub => lhs.difference(rhs, self.policy),
            ArithOp::Mul => lhs.product(rhs, self.policy),
            ArithOp::Div => lhs.quotient(rhs),
        };
        match result {
            Ok(cell) => {
                proof {
                    lemma_cell_of(cell);
                }
                self.world.insert(head, cell);
                Step::Quiet
            },
            Err(err) => Step::Fault(RunError::Arith(err)),
        }
    }

    /// Swaps the two cells currently targeted by `adj`.
    fn run_swap(&mut self, adj: Adj, input: Input<C>) -> (res: Step<C>)
        ensures
            (final(self)@, res) == old(self)@.swapped(adj, input, Ins::Swap { adj }),
            final(self).policy() == old(self).policy(),
            old(self).wf() ==> final(self).wf(),
    {
        let head = self.world.head();
        let (l, r) = match head.checked_neighbours(adj) {
            Some(pair) => pair,
            None => {
                return Step::Fault(RunError::OutOfRange);
            },
        };
        let (lv, rv) = match (self.world.fetch(l, input), self.world.fetch(r, input)) {
            (Some(lv), Some(rv)) => (lv, rv),
            _ => {
                return Step::NeedsInput(Ins::Swap { adj });
            },
        };
        let left_out = self.world.store(l, rv);
        let right_out = self.world.store(r, lv);
        match (left_out, right_out) {
            (Some(cell), _) => Step::Output(cell),
            (None, Some(cell)) => Step::Output(cell),
            (None, None) => Step::Quiet,
        }
    }

    /// Runs an instruction that holds no other.
    fn perform(&mut self, leaf: &Ins, input: Input<C>) -> (res: Step<C>)
        requires
            leaf.is_leaf(),
        ensures
            (final(self)@, res) == old(self)@.performed(*leaf, input, old(self).policy()),
            final(self).policy() == old(self).policy(),
            old(self).wf() ==> final(self).wf(),
    {
        let head = self.world.head();
        match leaf {
            Ins::MoveHeadOne { adj, dir } => {
                proof {
                    head@.lemma_stepped_once(*adj, *dir);
                }
                self.move_head(head.checked_step(*adj, *dir, 1), Ghost(head@.neighbour(*adj, *dir)))
            },
            Ins::MoveHeadDynamic { adj, dir } => {
                let distance = self.world.get(head).get_usize_val();
                self.move_head(
                    head.checked_step(*adj, *dir, distance),
                    Ghost(head@.stepped(*adj, *dir, distance as int)),
                )
            },
            Ins::Add { adj } => self.run_binop(*adj, ArithOp::Add, input, Ghost(*leaf)),
            Ins::Sub { adj } => self.run_binop(*adj, ArithOp::Sub, input, Ghost(*leaf)),
            Ins::Mul { adj } => self.run_binop(*adj, ArithOp::Mul, input, Ghost(*leaf)),
            Ins::SDiv { adj } => self.run_binop(*adj, ArithOp::Div, input, Ghost(*leaf)),
            Ins::Swap { adj } => self.run_swap(*adj, input),
            Ins::JumpThruCode { dir } => {
                let distance = self.world.get(head).get_usize_val();
                match dir {
                    Dir::L => {
                        self.script_head = self.script_head.saturating_sub(distance);
                    },
                    Dir::R => {
                        self.script_head = self.script_head.saturating_add(distance);
                    },
                }
                Step::Jumped
            },
            Ins::DumpWorld => Step::Dump,
            _ => Step::Quiet,
        }
    }

    /// Runs a single instruction in this world, each choice at random
    /// made afresh. The script head moves for a jump only, alone or
    /// under a condition or a choice, and the result is
    /// [`Step::Jumped`] then: no move by one is to follow.
    pub fn run_ins(&mut self, ins: &Ins, input: Input<C>) -> (res: Step<C>)
        ensures
            exists|leaf: Ins| #[trigger]
                ins.resolves_to(old(self)@.world.head_zero(), leaf) && (final(self)@, res)
                    == old(self)@.performed(leaf, input, old(self).policy()),
            !(input is Unread) ==> !(res is NeedsInput),
            res is NeedsInput ==> final(self)@ == old(self)@,
            final(self).policy() == old(self).policy(),
            old(self).wf() ==> final(self).wf(),
    {
        let head_zero = self.world.get(self.world.head()).is_zero();
        let leaf = ins.resolve(head_zero);
        proof {
            ins.lemma_resolves_to_leaf(head_zero, leaf);
            self@.lemma_input_suffices(leaf, input, self.policy);
        }
        let step = self.perform(&leaf, input);
        assert(ins.resolves_to(old(self)@.world.head_zero(), leaf));
        step
    }

    /// Runs a single instruction in this world, the choices at random
    /// falling as `coins` say. Nothing runs where the coins run out.
    pub fn run_ins_with(&mut self, ins: &Ins, input: Input<C>, coins: &[bool]) -> (res: Option<
        Step<C>,
    >)
        ensures
            match ins.resolved_by(old(self)@.world.head_zero(), coins@) {
                Some(leaf) => res is Some && (final(self)@, res.unwrap()) == old(self)@.performed(
                    leaf,
                    input,
                    old(self).policy(),
                ),
                None => res is None && final(self)@ == old(self)@,
            },
            !(input is Unread) ==> !(res matches Some(step) && step is NeedsInput),
            final(self).policy() == old(self).policy(),
            old(self).wf() ==> final(self).wf(),
    {
        let head_zero = self.world.get(self.world.head()).is_zero();
        match ins.resolve_with(head_zero, coins) {
            Some(leaf) => {
                proof {
                    ins.lemma_resolved_by(head_zero, coins@);
                    ins.lemma_resolves_to_leaf(head_zero, leaf);
                    self@.lemma_input_suffices(leaf, input, self.policy);
                }
                Some(self.perform(&leaf, input))
            },
            None => None,
        }
    }

    /// Moves the script head on by one after a step, unless the step
    /// waits for input or a jump has placed the script head.
    fn advance_after(&mut self, step: &Step<C>)
        ensures
            final(self)@ == if *step is NeedsInput || *step is Jumped {
                old(self)@
            } else {
                old(self)@.advanced()
            },
            final(self).policy() == old(self).policy(),
    {
        match step {
            Step::NeedsInput(_) => {},
            Step::Jumped => {},
            _ => {
                self.script_head = self.script_head.saturating_add(1);
            },
        }
    }

    /// Runs a single instruction as a step of the run, each choice at
    /// random made afresh: the instruction runs, and the script head
    /// moves on by one after it unless the instruction waits for input
    /// or a jump has placed the script head.
    pub fn step(&mut self, ins: &Ins, input: Input<C>) -> (res: Step<C>)
        ensures
            exists|leaf: Ins| #[trigger]
                ins.resolves_to(old(self)@.world.head_zero(), leaf) && (final(self)@, res)
                    == old(self)@.stepped(leaf, input, old(self).policy()),
            !(input is Unread) ==> !(res is NeedsInput),
            res is NeedsInput ==> final(self)@ == old(self)@,
            final(self).policy() == old(self).policy(),
            old(self).wf() ==> final(self).wf(),
    {
        let ghost before = self@;
        let step = self.run_ins(ins, input);
        let ghost leaf = choose|leaf: Ins| #[trigger]
            ins.resolves_to(before.world.head_zero(), leaf) && (self@, step) == before.performed(
                leaf,
                input,
                self.policy,
            );
        self.advance_after(&step);
        assert(ins.resolves_to(old(self)@.world.head_zero(), leaf) && (self@, step)
            == old(self)@.stepped(leaf, input, old(self).policy()));
        step
    }

    /// Runs a single instruction as a step of the run, the choices at
    /// random falling as `coins` say. Nothing runs where the coins run
    /// out.
    pub fn step_with(&mut self, ins: &Ins, input: Input<C>, coins: &[bool]) -> (res: Option<
        Step<C>,
    >)
        ensures
            match ins.resolved_by(old(self)@.world.head_zero(), coins@) {
                Some(leaf) => res is Some && (final(self)@, res.unwrap()) == old(self)@.stepped(
                    leaf,
                    input,
                    old(self).policy(),
                ),
                None => res is None && final(self)@ == old(self)@,
            },
            !(input is Unread) ==> !(res matches Some(step) && step is NeedsInput),
            final(self).policy() == old(self).policy(),
            old(self).wf() ==> final(self).wf(),
    {
        match self.run_ins_with(ins, input, coins) {
            Some(step) => {
                self.advance_after(&step);
                Some(step)
            },
            None => None,
        }
    }
}

/// Isolang script runner.
pub struct ScriptRunner<C: Cell> {
    /// The instructions in the script.
    script: Vec<Ins>,
    /// The current running state.
    state: ScriptRunnerState<C>,
}

impl<C: Cell> View for ScriptRunner<C> {
    type V = StateView<C>;

    closed spec fn view(&self) -> StateView<C> {
        self.state@
    }
}

impl<C: Cell> ScriptRunner<C> {
    /// The instructions in the script.
    pub closed spec fn script(&self) -> Seq<Ins> {
        self.script@
    }

    /// What becomes of a result that a cell cannot hold.
    pub closed spec fn policy(&self) -> OverflowPolicy {
        self.state.policy()
    }

    /// The invariant of a runner: the script head is an index, and no
    /// stored cell holds one. A new runner has it and every method keeps
    /// it.
    pub open spec fn wf(&self) -> bool {
        &&& 0 <= self@.script_head <= usize::MAX
        &&& self@.world.sparse()
    }

    /// Whether the program has ended: the script head stands past the
    /// last instruction.
    pub open spec fn finished(&self) -> bool {
        self@.script_head >= self.script().len()
    }

    /// Whether two runners run the same script under the same policy.
    pub open spec fn same_program(&self, other: &Self) -> bool {
        self.script() == other.script() && self.policy() == other.policy()
    }

    /// Construct a new runner from a [`Vec`] of instructions. A result
    /// that a cell cannot hold wraps around.
    pub fn new(script: Vec<Ins>) -> (res: Self)
        ensures
            res.script() == script@,
            res.policy() == OverflowPolicy::Wrap,
            res@ == (StateView { script_head: 0, world: WorldView::<C>::empty() }),
            res.wf(),
    {
        ScriptRunner::with_policy(script, OverflowPolicy::Wrap)
    }

    /// Construct a new runner from a [`Vec`] of instructions and the
    /// policy for results that a cell cannot hold.
    pub fn with_policy(script: Vec<Ins>, policy: OverflowPolicy) -> (res: Self)
        ensures
            res.script() == script@,
            res.policy() == policy,
            res@ == (StateView { script_head: 0, world: WorldView::<C>::empty() }),
            res.wf(),
    {
        ScriptRunner { script, state: ScriptRunnerState::new(policy) }
    }

    /// Get a mutable reference to the [`World`] in this runner.
    pub fn world_mut(&mut self) -> (res: &mut World<C>)
        ensures
            (*res)@ == old(self)@.world,
            final(self)@ == old(self)@.with_world((*final(res))@),
            final(self).same_program(old(self)),
    {
        self.state.world_mut()
    }

    /// Get a non-mutable reference to the [`World`] in this runner.
    pub fn world(&self) -> (res: &World<C>)
        ensures
            res@ == self@.world,
    {
        self.state.world()
    }

    /// The index of the next instruction.
    pub fn script_head(&self) -> (res: usize)
        ensures
            res == self@.script_head,
    {
        self.state.script_head()
    }

    /// Places the script head on an instruction.
    pub fn set_script_head(&mut self, script_head: usize)
        ensures
            final(self)@ == (StateView {
                script_head: script_head as int,
                world: old(self)@.world,
            }),
            final(self).same_program(old(self)),
            old(self).wf() ==> final(self).wf(),
    {
        self.state.set_script_head(script_head);
    }

    /// The number of instructions in the script.
    pub fn script_len(&self) -> (res: usize)
        ensures
            res == self.script().len(),
    {
        self.script.len()
    }

    /// Runs the next step in the script, each choice at random made
    /// afresh.
    ///
    /// ### Returns
    /// Returns [`Step::Finished`] if the program has finished.
    pub fn run_next(&mut self) -> (res: Step<C>)
        ensures
            final(self).same_program(old(self)),
            old(self).wf() ==> final(self).wf(),
            old(self).finished() ==> res == Step::<C>::Finished && final(self)@ == old(self)@,
            !old(self).finished() ==> exists|leaf: Ins| #[trigger]
                old(self).script()[old(self)@.script_head].resolves_to(
                    old(self)@.world.head_zero(),
                    leaf,
                ) && (final(self)@, res) == old(self)@.stepped(
                    leaf,
                    Input::Unread,
                    old(self).policy(),
                ),
            res is NeedsInput ==> final(self)@ == old(self)@,
    {
        if self.state.script_head >= self.script.len() {
            return Step::Finished;
        }
        let ghost before = self@;
        let ghost ins = self.script@[self.state.script_head as int];
        let step = self.state.step(&self.script[self.state.script_head], Input::Unread);
        let ghost leaf = choose|leaf: Ins| #[trigger]
            ins.resolves_to(before.world.head_zero(), leaf) && (self@, step) == before.stepped(
                leaf,
                Input::Unread,
                self.policy(),
            );
        assert(ins.resolves_to(before.world.head_zero(), leaf));
        step
    }

    /// Runs the next step in the script, the choices at random falling
    /// as `coins` say. Nothing runs where the coins run out.
    pub fn run_next_with(&mut self, coins: &[bool]) -> (res: Option<Step<C>>)
        ensures
            final(self).same_program(old(self)),
            old(self).wf() ==> final(self).wf(),
            old(self).finished() ==> res == Some(Step::<C>::Finished) && final(self)@
                == old(self)@,
            !old(self).finished() ==> match old(self).script()[old(self)@.script_head].resolved_by(
                old(self)@.world.head_zero(),
                coins@,
            ) {
                Some(leaf) => res is Some && (final(self)@, res.unwrap()) == old(self)@.stepped(
                    leaf,
                    Input::Unread,
                    old(self).policy(),
                ),
                None => res is None && final(self)@ == old(self)@,
            },
    {
        if self.state.script_head >= self.script.len() {
            return Some(Step::Finished);
        }
        self.state.step_with(&self.script[self.state.script_head], Input::Unread, coins)
    }

    /// Runs an instruction in the place of the next one, with what the
    /// caller has read for it from the input stream: the second half of
    /// a step that came to [`Step::NeedsInput`]. With a value of the
    /// input stream, or with the word that the stream has none left, the
    /// instruction does not wait again.
    pub fn resume(&mut self, ins: &Ins, input: Input<C>) -> (res: Step<C>)
        ensures
            final(self).same_program(old(self)),
            old(self).wf() ==> final(self).wf(),
            exists|leaf: Ins| #[trigger]
                ins.resolves_to(old(self)@.world.head_zero(), leaf) && (final(self)@, res)
                    == old(self)@.stepped(leaf, input, old(self).policy()),
            !(input is Unread) ==> !(res is NeedsInput),
            res is NeedsInput ==> final(self)@ == old(self)@,
    {
        let ghost before = self@;
        let step = self.state.step(ins, input);
        let ghost leaf = choose|leaf: Ins| #[trigger]
            ins.resolves_to(before.world.head_zero(), leaf) && (self@, step) == before.stepped(
                leaf,
                input,
                self.policy(),
            );
        assert(ins.resolves_to(old(self)@.world.head_zero(), leaf) && (self@, step)
            == old(self)@.stepped(leaf, input, old(self).policy()));
        step
    }
}

} // verus!
