use isolang::parser::{ParseMode, ScriptParser};
use isolang::runner::{Ins, Input, RunError, ScriptRunner, ScriptRunnerState, Step};
use isolang::world::cell::{ArithError, OverflowPolicy, U32Cell, U8Cell};
use isolang::world::{Adj, Cell, Coord, Dir};

const ORIGIN: Coord = Coord { r: 0, ul: 0 };

fn runner(src: &str) -> ScriptRunner<U8Cell> {
    ScriptRunner::new(ScriptParser::parse(src.as_bytes(), ParseMode::Strict).unwrap())
}

#[test]
fn a_new_runner_starts_on_the_first_instruction_of_an_empty_world() {
    let runner = runner("+-*/");
    assert_eq!(runner.script_head(), 0);
    assert_eq!(runner.script_len(), 2);
    assert_eq!(runner.world().head(), ORIGIN);
    assert_eq!(runner.world().stored_len(), 0);
}

#[test]
fn an_empty_script_has_finished() {
    let mut runner = runner("");
    assert_eq!(runner.run_next(), Step::Finished);
    assert_eq!(runner.run_next(), Step::Finished);
    assert_eq!(runner.script_head(), 0);
}

#[test]
fn add_on_an_empty_world_writes_two_at_the_head() {
    let mut one = ScriptRunner::<U8Cell>::new(vec![Ins::Add { adj: Adj::LR }]);
    assert_eq!(one.run_next(), Step::Quiet);
    assert_eq!(one.world().get(ORIGIN), U8Cell(2));
    assert_eq!(one.world().head(), ORIGIN);
    assert_eq!(one.script_head(), 1);
    assert_eq!(one.run_next(), Step::Finished);

    let mut wide = ScriptRunner::<U32Cell>::new(vec![Ins::Add { adj: Adj::LR }]);
    assert_eq!(wide.run_next(), Step::Quiet);
    assert_eq!(wide.world().get(ORIGIN), U32Cell(2));

    let mut script = runner("+\\+-*/");
    assert_eq!(script.run_next(), Step::Quiet);
    assert_eq!(script.world().get(ORIGIN), U8Cell(2));
    assert_eq!(script.run_next(), Step::Quiet);
    assert_eq!(script.world().get(ORIGIN), U8Cell(2));
    assert_eq!(script.run_next(), Step::Quiet);
    assert_eq!(script.world().get(ORIGIN), U8Cell::one());
    assert!(!script.world().is_stored(ORIGIN));
    assert_eq!(script.run_next(), Step::Finished);
    assert_eq!(script.script_head(), 3);
}

#[test]
fn move_head_one_moves_the_head_by_one_cell() {
    let mut runner = ScriptRunner::<U8Cell>::new(vec![
        Ins::MoveHeadOne { adj: Adj::LR, dir: Dir::R },
        Ins::MoveHeadOne { adj: Adj::U2, dir: Dir::L },
        Ins::MoveHeadOne { adj: Adj::D2, dir: Dir::R },
    ]);
    assert_eq!(runner.run_next(), Step::Quiet);
    assert_eq!(runner.world().head(), Coord { r: 1, ul: 0 });
    assert_eq!(runner.script_head(), 1);
    assert_eq!(runner.run_next(), Step::Quiet);
    assert_eq!(runner.world().head(), Coord { r: 1, ul: 1 });
    assert_eq!(runner.run_next(), Step::Quiet);
    assert_eq!(runner.world().head(), Coord { r: 1, ul: 0 });
    assert_eq!(runner.world().stored_len(), 0);
}

#[test]
fn move_head_dynamic_moves_by_the_head_cell() {
    let mut runner = ScriptRunner::<U8Cell>::new(vec![
        Ins::MoveHeadDynamic { adj: Adj::DLUR, dir: Dir::L },
        Ins::MoveHeadDynamic { adj: Adj::LR, dir: Dir::R },
        Ins::MoveHeadDynamic { adj: Adj::LR, dir: Dir::R },
    ]);
    runner.world_mut().insert(ORIGIN, U8Cell(5));
    runner.world_mut().insert(Coord { r: -5, ul: -5 }, U8Cell(0));
    assert_eq!(runner.run_next(), Step::Quiet);
    assert_eq!(runner.world().head(), Coord { r: -5, ul: -5 });
    // A head cell of zero moves nowhere.
    assert_eq!(runner.run_next(), Step::Quiet);
    assert_eq!(runner.world().head(), Coord { r: -5, ul: -5 });
    // An untouched head cell holds one.
    runner.world_mut().insert(Coord { r: -5, ul: -5 }, U8Cell(1));
    assert_eq!(runner.run_next(), Step::Quiet);
    assert_eq!(runner.world().head(), Coord { r: -4, ul: -5 });
    assert_eq!(runner.script_head(), 3);
}

#[test]
fn jump_thru_code_sets_the_script_head_and_does_not_advance() {
    let mut script = vec![Ins::Noop, Ins::Noop, Ins::Noop, Ins::Noop, Ins::Noop];
    script.push(Ins::JumpThruCode { dir: Dir::R });
    for _ in 0..6 {
        script.push(Ins::Noop);
    }
    let mut runner = ScriptRunner::<U8Cell>::new(script);
    runner.world_mut().insert(ORIGIN, U8Cell(3));
    runner.set_script_head(5);
    assert_eq!(runner.run_next(), Step::Jumped);
    assert_eq!(runner.script_head(), 8);
    assert_eq!(runner.world().get(ORIGIN), U8Cell(3));
    assert_eq!(runner.world().head(), ORIGIN);
}

#[test]
fn jump_backward_stops_at_the_first_instruction() {
    let mut runner = ScriptRunner::<U8Cell>::new(vec![
        Ins::Noop,
        Ins::Noop,
        Ins::JumpThruCode { dir: Dir::L },
    ]);
    runner.world_mut().insert(ORIGIN, U8Cell(2));
    runner.set_script_head(2);
    assert_eq!(runner.run_next(), Step::Jumped);
    assert_eq!(runner.script_head(), 0);
    runner.world_mut().insert(ORIGIN, U8Cell(200));
    runner.set_script_head(2);
    assert_eq!(runner.run_next(), Step::Jumped);
    assert_eq!(runner.script_head(), 0);
}

#[test]
fn jump_forward_past_the_end_finishes_the_program() {
    let mut runner = ScriptRunner::<U32Cell>::new(vec![Ins::JumpThruCode { dir: Dir::R }, Ins::Noop]);
    runner.world_mut().insert(ORIGIN, U32Cell(u32::MAX));
    assert_eq!(runner.run_next(), Step::Jumped);
    assert_eq!(runner.script_head(), u32::MAX as usize);
    assert_eq!(runner.run_next(), Step::Finished);
    runner.set_script_head(usize::MAX);
    assert_eq!(runner.resume(&Ins::JumpThruCode { dir: Dir::R }, Input::Unread), Step::Jumped);
    assert_eq!(runner.script_head(), usize::MAX);
    assert_eq!(runner.resume(&Ins::Noop, Input::Unread), Step::Quiet);
    assert_eq!(runner.script_head(), usize::MAX);
}

#[test]
fn a_jump_of_zero_stays_on_the_jump() {
    let mut runner = ScriptRunner::<U8Cell>::new(vec![Ins::JumpThruCode { dir: Dir::R }]);
    runner.world_mut().insert(ORIGIN, U8Cell(0));
    assert_eq!(runner.run_next(), Step::Jumped);
    assert_eq!(runner.script_head(), 0);
}

#[test]
fn a_jump_under_a_condition_lands_where_the_jump_alone_lands() {
    let mut bare = runner(":");
    bare.world_mut().insert(ORIGIN, U8Cell(3));
    assert_eq!(bare.run_next(), Step::Jumped);
    assert_eq!(bare.script_head(), 3);

    let mut runner = runner(":?");
    runner.world_mut().insert(ORIGIN, U8Cell(3));
    assert_eq!(runner.run_next(), Step::Jumped);
    assert_eq!(runner.script_head(), 3);

    // The head one cell to the right of the origin, on a cell of three.
    let guarded = Ins::IfNotZeroCond { ins: Box::new(Ins::JumpThruCode { dir: Dir::R }) };
    let mut script = Vec::new();
    for _ in 0..5 {
        script.push(Ins::Noop);
    }
    script.push(guarded.clone());
    let mut at_five = ScriptRunner::<U8Cell>::new(script);
    at_five.world_mut().set_head(Coord::right());
    let three = U8Cell::one() + U8Cell::one() + U8Cell::one();
    at_five.world_mut().insert(Coord::right(), three);
    at_five.set_script_head(5);
    assert_eq!(at_five.run_next(), Step::Jumped);
    assert_eq!(at_five.script_head(), 8);

    let mut state: ScriptRunnerState<U8Cell> = ScriptRunnerState::new(OverflowPolicy::Wrap);
    state.world_mut().set_head(Coord::right());
    state.world_mut().insert(Coord::right(), three);
    state.set_script_head(5);
    assert_eq!(state.run_ins(&guarded, Input::Unread), Step::Jumped);
    assert_eq!(state.script_head(), 8);
    state.set_script_head(5);
    assert_eq!(state.step(&guarded, Input::Unread), Step::Jumped);
    assert_eq!(state.script_head(), 8);
}

#[test]
fn a_condition_that_fails_over_a_jump_moves_on_by_one() {
    let mut not_zero = runner(":?");
    not_zero.world_mut().insert(ORIGIN, U8Cell(0));
    assert_eq!(not_zero.run_next(), Step::Quiet);
    assert_eq!(not_zero.script_head(), 1);

    let mut zero = runner(":?!");
    zero.world_mut().insert(ORIGIN, U8Cell(3));
    assert_eq!(zero.run_next(), Step::Quiet);
    assert_eq!(zero.script_head(), 1);
}

#[test]
fn a_jump_under_the_opposite_condition_runs_on_a_zero_head_cell() {
    // A head cell of zero stands for no step: the jump stays on itself.
    let mut runner = runner(":?!");
    runner.world_mut().insert(ORIGIN, U8Cell(0));
    assert_eq!(runner.run_next(), Step::Jumped);
    assert_eq!(runner.script_head(), 0);
}

#[test]
fn a_jump_chosen_at_random_lands_where_the_jump_alone_lands() {
    // `:!#` is the choice between the jump forward and the jump backward.
    let choice = Ins::RandomlyChoose {
        options: Box::new((
            Ins::JumpThruCode { dir: Dir::R },
            Ins::JumpThruCode { dir: Dir::L },
        )),
    };
    assert_eq!(ScriptParser::parse(b":!#", ParseMode::Strict), Ok(vec![choice.clone()]));
    let mut script = Vec::new();
    for _ in 0..6 {
        script.push(choice.clone());
    }
    let mut unmodified = ScriptRunner::<U8Cell>::new(script.clone());
    unmodified.world_mut().insert(ORIGIN, U8Cell(3));
    unmodified.set_script_head(5);
    assert_eq!(unmodified.run_next_with(&[true]), Some(Step::Jumped));
    assert_eq!(unmodified.script_head(), 8);
    let mut modified = ScriptRunner::<U8Cell>::new(script.clone());
    modified.world_mut().insert(ORIGIN, U8Cell(3));
    modified.set_script_head(5);
    assert_eq!(modified.run_next_with(&[false]), Some(Step::Jumped));
    assert_eq!(modified.script_head(), 2);
    for _ in 0..50 {
        let mut random = ScriptRunner::<U8Cell>::new(script.clone());
        random.world_mut().insert(ORIGIN, U8Cell(3));
        random.set_script_head(5);
        assert_eq!(random.run_next(), Step::Jumped);
        assert!(random.script_head() == 8 || random.script_head() == 2);
    }
    // Skip at random over a jump: the jump, or one step on.
    let mut kept = runner(":#");
    kept.world_mut().insert(ORIGIN, U8Cell(3));
    assert_eq!(kept.run_next_with(&[true]), Some(Step::Jumped));
    assert_eq!(kept.script_head(), 3);
    let mut skipped = runner(":#");
    skipped.world_mut().insert(ORIGIN, U8Cell(3));
    assert_eq!(skipped.run_next_with(&[false]), Some(Step::Quiet));
    assert_eq!(skipped.script_head(), 1);
}

#[test]
fn an_instruction_that_is_offered_input_does_not_wait_again() {
    let leaves = [
        Ins::Add { adj: Adj::LR },
        Ins::Sub { adj: Adj::ULDR },
        Ins::Mul { adj: Adj::DLUR },
        Ins::SDiv { adj: Adj::U2 },
        Ins::Swap { adj: Adj::D2 },
    ];
    for leaf in leaves.iter() {
        for dir in [Dir::L, Dir::R] {
            for adj in [Adj::LR, Adj::ULDR, Adj::DLUR, Adj::U2, Adj::D2] {
                for input in [Input::Value(U8Cell(9)), Input::Exhausted] {
                    let mut runner = ScriptRunner::<U8Cell>::new(vec![leaf.clone()]);
                    runner.world_mut().set_head(Coord::from((adj, dir)));
                    let step = runner.resume(leaf, input);
                    assert!(!matches!(step, Step::NeedsInput(_)));
                    assert_eq!(runner.script_head(), 1);
                }
            }
        }
    }
}

#[test]
fn invert_then_conditional_has_no_effect_on_a_zero_head_cell() {
    let mut runner = runner(">-!?");
    runner.world_mut().insert(ORIGIN, U8Cell(0));
    assert_eq!(runner.run_next(), Step::Quiet);
    assert_eq!(runner.world().head(), ORIGIN);
    assert_eq!(runner.world().get(ORIGIN), U8Cell(0));
    assert_eq!(runner.world().stored_len(), 1);
    assert_eq!(runner.script_head(), 1);
    // With a head cell that is not zero the inverse runs.
    runner.world_mut().insert(ORIGIN, U8Cell(9));
    runner.set_script_head(0);
    assert_eq!(runner.run_next(), Step::Quiet);
    assert_eq!(runner.world().head(), Coord { r: -1, ul: 0 });
}

#[test]
fn conditional_then_invert_runs_on_a_zero_head_cell_only() {
    let mut runner = runner(">-?!");
    assert_eq!(runner.run_next(), Step::Quiet);
    assert_eq!(runner.world().head(), ORIGIN);
    runner.world_mut().insert(ORIGIN, U8Cell(0));
    runner.set_script_head(0);
    assert_eq!(runner.run_next(), Step::Quiet);
    assert_eq!(runner.world().head(), Coord { r: 1, ul: 0 });
}

#[test]
fn noop_changes_nothing_but_the_script_head() {
    let mut script = Vec::new();
    for _ in 0..50 {
        script.push(Ins::Noop);
    }
    let mut runner = ScriptRunner::<U8Cell>::new(script);
    runner.world_mut().insert(Coord { r: 2, ul: 3 }, U8Cell(77));
    runner.world_mut().set_head(Coord { r: -1, ul: 4 });
    for n in 0..50 {
        assert_eq!(runner.script_head(), n);
        assert_eq!(runner.run_next(), Step::Quiet);
        assert_eq!(runner.world().head(), Coord { r: -1, ul: 4 });
        assert_eq!(runner.world().stored_cells(), vec![(Coord { r: 2, ul: 3 }, U8Cell(77))]);
    }
    assert_eq!(runner.script_head(), 50);
    assert_eq!(runner.run_next(), Step::Finished);
}

#[test]
fn arithmetic_reads_left_and_right_and_writes_at_the_head() {
    let mut runner = runner("+-+-!*-*-!");
    runner.world_mut().set_head(Coord { r: 5, ul: 5 });
    runner.world_mut().insert(Coord { r: 4, ul: 5 }, U8Cell(20));
    runner.world_mut().insert(Coord { r: 6, ul: 5 }, U8Cell(6));
    assert_eq!(runner.run_next(), Step::Quiet);
    assert_eq!(runner.world().get(Coord { r: 5, ul: 5 }), U8Cell(26));
    assert_eq!(runner.run_next(), Step::Quiet);
    assert_eq!(runner.world().get(Coord { r: 5, ul: 5 }), U8Cell(14));
    assert_eq!(runner.run_next(), Step::Quiet);
    assert_eq!(runner.world().get(Coord { r: 5, ul: 5 }), U8Cell(120));
    assert_eq!(runner.run_next(), Step::Quiet);
    assert_eq!(runner.world().get(Coord { r: 5, ul: 5 }), U8Cell(3));
    assert_eq!(runner.world().get(Coord { r: 4, ul: 5 }), U8Cell(20));
    assert_eq!(runner.world().get(Coord { r: 6, ul: 5 }), U8Cell(6));
    assert_eq!(runner.script_head(), 4);
}

#[test]
fn the_runner_wraps_unless_told_otherwise() {
    let script = || vec![Ins::Sub { adj: Adj::LR }, Ins::Mul { adj: Adj::LR }];
    let prepare = |runner: &mut ScriptRunner<U8Cell>| {
        runner.world_mut().set_head(Coord { r: 0, ul: 2 });
        runner.world_mut().insert(Coord { r: -1, ul: 2 }, U8Cell(100));
        runner.world_mut().insert(Coord { r: 1, ul: 2 }, U8Cell(101));
    };
    let head = Coord { r: 0, ul: 2 };

    let mut wrap = ScriptRunner::<U8Cell>::new(script());
    prepare(&mut wrap);
    assert_eq!(wrap.run_next(), Step::Quiet);
    assert_eq!(wrap.world().get(head), U8Cell(255));
    assert_eq!(wrap.run_next(), Step::Quiet);
    assert_eq!(wrap.world().get(head), U8Cell(116));

    let mut saturate = ScriptRunner::<U8Cell>::with_policy(script(), OverflowPolicy::Saturate);
    prepare(&mut saturate);
    assert_eq!(saturate.run_next(), Step::Quiet);
    assert_eq!(saturate.world().get(head), U8Cell(0));
    assert_eq!(saturate.run_next(), Step::Quiet);
    assert_eq!(saturate.world().get(head), U8Cell(255));

    let mut fail = ScriptRunner::<U8Cell>::with_policy(script(), OverflowPolicy::Fail);
    prepare(&mut fail);
    assert_eq!(fail.run_next(), Step::Fault(RunError::Arith(ArithError::Underflow)));
    assert_eq!(fail.world().get(head), U8Cell(1));
    assert_eq!(fail.script_head(), 1);
    assert_eq!(fail.run_next(), Step::Fault(RunError::Arith(ArithError::Overflow)));
    assert_eq!(fail.world().get(head), U8Cell(1));
    assert_eq!(fail.script_head(), 2);
}

#[test]
fn division_by_zero_is_a_fault_that_changes_nothing_in_the_world() {
    let mut runner = runner("*-!>-");
    runner.world_mut().insert(Coord { r: 1, ul: 0 }, U8Cell(0));
    runner.world_mut().insert(Coord { r: -1, ul: 0 }, U8Cell(8));
    runner.world_mut().insert(ORIGIN, U8Cell(5));
    assert_eq!(runner.run_next(), Step::Fault(RunError::Arith(ArithError::DivideByZero)));
    assert_eq!(runner.world().get(ORIGIN), U8Cell(5));
    assert_eq!(runner.world().stored_len(), 3);
    assert_eq!(runner.script_head(), 1);
    // The caller may go on.
    assert_eq!(runner.run_next(), Step::Quiet);
    assert_eq!(runner.world().head(), Coord { r: 1, ul: 0 });
}

#[test]
fn swap_exchanges_the_two_cells_and_leaves_the_head() {
    let mut runner = runner("~/");
    runner.world_mut().set_head(Coord { r: 3, ul: 3 });
    runner.world_mut().insert(Coord { r: 2, ul: 2 }, U8Cell(10));
    runner.world_mut().insert(Coord { r: 3, ul: 3 }, U8Cell(55));
    assert_eq!(runner.run_next(), Step::Quiet);
    assert_eq!(runner.world().get(Coord { r: 2, ul: 2 }), U8Cell(1));
    assert_eq!(runner.world().get(Coord { r: 4, ul: 4 }), U8Cell(10));
    assert_eq!(runner.world().get(Coord { r: 3, ul: 3 }), U8Cell(55));
    assert_eq!(runner.world().head(), Coord { r: 3, ul: 3 });
    assert!(!runner.world().is_stored(Coord { r: 2, ul: 2 }));
}

#[test]
fn reading_the_right_half_of_the_origin_asks_for_input() {
    let mut runner = runner("+->-");
    runner.world_mut().set_head(Coord { r: 1, ul: 0 });
    runner.world_mut().insert(Coord { r: 2, ul: 0 }, U8Cell(1));
    runner.world_mut().insert(ORIGIN, U8Cell(40));
    let pending = match runner.run_next() {
        Step::NeedsInput(ins) => ins,
        other => panic!("expected a request for input, got {:?}", other),
    };
    assert_eq!(pending, Ins::Add { adj: Adj::LR });
    // Nothing changed while the instruction waits.
    assert_eq!(runner.script_head(), 0);
    assert_eq!(runner.world().get(Coord { r: 1, ul: 0 }), U8Cell(1));
    assert_eq!(runner.resume(&pending, Input::Value(U8Cell(65))), Step::Quiet);
    assert_eq!(runner.world().get(Coord { r: 1, ul: 0 }), U8Cell(66));
    // The value that was read is not stored at the origin.
    assert_eq!(runner.world().get(ORIGIN), U8Cell(40));
    assert_eq!(runner.script_head(), 1);
}

#[test]
fn an_exhausted_input_reads_the_origin_as_it_is_stored() {
    let mut runner = runner("+-+-");
    runner.world_mut().set_head(Coord { r: 1, ul: 0 });
    runner.world_mut().insert(Coord { r: 2, ul: 0 }, U8Cell(10));
    assert_eq!(runner.run_next(), Step::NeedsInput(Ins::Add { adj: Adj::LR }));
    assert_eq!(runner.resume(&Ins::Add { adj: Adj::LR }, Input::Exhausted), Step::Quiet);
    assert_eq!(runner.world().get(Coord { r: 1, ul: 0 }), U8Cell(11));
    runner.world_mut().insert(ORIGIN, U8Cell(30));
    assert_eq!(runner.run_next(), Step::NeedsInput(Ins::Add { adj: Adj::LR }));
    assert_eq!(runner.resume(&Ins::Add { adj: Adj::LR }, Input::Exhausted), Step::Quiet);
    assert_eq!(runner.world().get(Coord { r: 1, ul: 0 }), U8Cell(40));
    assert_eq!(runner.script_head(), 2);
}

#[test]
fn every_right_hand_neighbour_of_the_origin_reads_input() {
    for (adj, dir) in [
        (Adj::LR, Dir::R),
        (Adj::ULDR, Dir::R),
        (Adj::DLUR, Dir::R),
        (Adj::U2, Dir::R),
        (Adj::D2, Dir::R),
    ] {
        // From the neighbour in direction `dir`, the origin is the other member.
        let mut runner = ScriptRunner::<U32Cell>::new(vec![Ins::Mul { adj }]);
        let head = Coord::from((adj, dir));
        runner.world_mut().set_head(head);
        let (left, right) = head + adj;
        if left == ORIGIN || right == ORIGIN {
            assert_eq!(runner.run_next(), Step::NeedsInput(Ins::Mul { adj }));
            assert_eq!(runner.resume(&Ins::Mul { adj }, Input::Value(U32Cell(0x20AC))), Step::Quiet);
            assert_eq!(runner.world().get(head), U32Cell(0x20AC));
        } else {
            assert_eq!(runner.run_next(), Step::Quiet);
        }
    }
}

#[test]
fn reading_the_origin_from_the_left_or_from_the_head_is_a_plain_read() {
    let mut from_left = runner("+-");
    from_left.world_mut().set_head(Coord { r: -1, ul: 0 });
    from_left.world_mut().insert(ORIGIN, U8Cell(9));
    assert_eq!(from_left.run_next(), Step::Quiet);
    assert_eq!(from_left.world().get(Coord { r: -1, ul: 0 }), U8Cell(10));

    let mut at_head = runner(";-");
    at_head.world_mut().insert(ORIGIN, U8Cell(4));
    assert_eq!(at_head.run_next(), Step::Quiet);
    assert_eq!(at_head.world().head(), Coord { r: 4, ul: 0 });
}

#[test]
fn writing_the_left_half_of_the_origin_is_output() {
    let mut runner = runner("~-");
    runner.world_mut().set_head(Coord { r: -1, ul: 0 });
    runner.world_mut().insert(Coord { r: -2, ul: 0 }, U8Cell(72));
    runner.world_mut().insert(ORIGIN, U8Cell(33));
    assert_eq!(runner.run_next(), Step::Output(U8Cell(72)));
    // The cell that went out is not stored; the other one moved.
    assert_eq!(runner.world().get(ORIGIN), U8Cell(33));
    assert_eq!(runner.world().get(Coord { r: -2, ul: 0 }), U8Cell(33));
    assert_eq!(runner.script_head(), 1);
}

#[test]
fn swap_from_the_right_reads_input_and_stores_at_the_origin() {
    let mut runner = runner("~-");
    runner.world_mut().set_head(Coord { r: 1, ul: 0 });
    runner.world_mut().insert(Coord { r: 2, ul: 0 }, U8Cell(50));
    assert_eq!(runner.run_next(), Step::NeedsInput(Ins::Swap { adj: Adj::LR }));
    assert_eq!(runner.resume(&Ins::Swap { adj: Adj::LR }, Input::Value(U8Cell(7))), Step::Quiet);
    assert_eq!(runner.world().get(Coord { r: 2, ul: 0 }), U8Cell(7));
    // Seen from the right, the origin is read as input, so look from the head.
    runner.world_mut().set_head(ORIGIN);
    assert_eq!(runner.world().get(ORIGIN), U8Cell(50));
}

#[test]
fn the_diagnostic_instruction_asks_for_a_dump() {
    let mut runner = runner("@+-");
    assert_eq!(runner.run_next(), Step::Dump);
    assert_eq!(runner.script_head(), 1);
    assert_eq!(runner.world().stored_len(), 0);
}

#[test]
fn a_step_that_leaves_the_coordinate_range_is_a_fault() {
    let mut runner = runner(">->-!+-~-;-");
    let edge = Coord { r: isize::MAX, ul: 0 };
    runner.world_mut().set_head(edge);
    assert_eq!(runner.run_next(), Step::Fault(RunError::OutOfRange));
    assert_eq!(runner.world().head(), edge);
    assert_eq!(runner.script_head(), 1);
    assert_eq!(runner.run_next(), Step::Quiet);
    assert_eq!(runner.world().head(), Coord { r: isize::MAX - 1, ul: 0 });
    runner.world_mut().set_head(edge);
    assert_eq!(runner.run_next(), Step::Fault(RunError::OutOfRange));
    assert_eq!(runner.run_next(), Step::Fault(RunError::OutOfRange));
    runner.world_mut().insert(edge, U8Cell(1));
    assert_eq!(runner.run_next(), Step::Fault(RunError::OutOfRange));
    assert_eq!(runner.world().stored_len(), 0);
    assert_eq!(runner.script_head(), 5);
}

#[test]
fn random_choice_runs_one_of_its_two_instructions() {
    let mut left = 0;
    let mut right = 0;
    for _ in 0..400 {
        let mut runner = runner(">-!#");
        assert_eq!(runner.run_next(), Step::Quiet);
        assert_eq!(runner.script_head(), 1);
        let head = runner.world().head();
        if head == (Coord { r: 1, ul: 0 }) {
            right += 1;
        } else {
            assert_eq!(head, Coord { r: -1, ul: 0 });
            left += 1;
        }
    }
    assert!(left > 0);
    assert!(right > 0);
}

#[test]
fn run_next_with_decides_the_random_choice_by_the_coins() {
    let mut first = runner(">-!#");
    assert_eq!(first.run_next_with(&[true]), Some(Step::Quiet));
    assert_eq!(first.world().head(), Coord { r: 1, ul: 0 });
    assert_eq!(first.script_head(), 1);
    assert_eq!(first.run_next_with(&[]), Some(Step::Finished));

    let mut second = runner(">-!#");
    assert_eq!(second.run_next_with(&[false]), Some(Step::Quiet));
    assert_eq!(second.world().head(), Coord { r: -1, ul: 0 });

    let mut none = runner(">-!#");
    assert_eq!(none.run_next_with(&[]), None);
    assert_eq!(none.world().head(), ORIGIN);
    assert_eq!(none.script_head(), 0);

    // Skip at random: the coin decides between the instruction and nothing.
    let mut skipped = runner("+-#");
    assert_eq!(skipped.run_next_with(&[false]), Some(Step::Quiet));
    assert_eq!(skipped.world().get(ORIGIN), U8Cell(1));
    let mut kept = runner("+-#");
    assert_eq!(kept.run_next_with(&[true]), Some(Step::Quiet));
    assert_eq!(kept.world().get(ORIGIN), U8Cell(2));
}

#[test]
fn a_choice_that_waits_for_input_is_resumed_as_it_fell() {
    // From the right of the origin the first option reads input, the
    // second one does not.
    let mut runner = runner("+-#");
    runner.world_mut().set_head(Coord { r: 1, ul: 0 });
    assert_eq!(runner.run_next_with(&[true]), Some(Step::NeedsInput(Ins::Add { adj: Adj::LR })));
    assert_eq!(runner.script_head(), 0);
    assert_eq!(runner.resume(&Ins::Add { adj: Adj::LR }, Input::Value(U8Cell(5))), Step::Quiet);
    assert_eq!(runner.world().get(Coord { r: 1, ul: 0 }), U8Cell(6));
    assert_eq!(runner.script_head(), 1);
}

#[test]
fn the_state_runs_single_instructions() {
    let mut state: ScriptRunnerState<U8Cell> = ScriptRunnerState::new(OverflowPolicy::Fail);
    assert_eq!(state.script_head(), 0);
    assert_eq!(state.run_ins(&Ins::Add { adj: Adj::U2 }, Input::Unread), Step::Quiet);
    assert_eq!(state.world().get(ORIGIN), U8Cell(2));
    // Running an instruction alone does not move the script head.
    assert_eq!(state.script_head(), 0);
    state.world_mut().insert(ORIGIN, U8Cell(3));
    state.set_script_head(5);
    assert_eq!(state.run_ins(&Ins::JumpThruCode { dir: Dir::R }, Input::Unread), Step::Jumped);
    assert_eq!(state.script_head(), 8);
    let choice = Ins::RandomlyChoose {
        options: Box::new((
            Ins::MoveHeadOne { adj: Adj::LR, dir: Dir::R },
            Ins::MoveHeadOne { adj: Adj::LR, dir: Dir::L },
        )),
    };
    assert_eq!(state.run_ins_with(&choice, Input::Unread, &[]), None);
    assert_eq!(state.run_ins_with(&choice, Input::Unread, &[false]), Some(Step::Quiet));
    assert_eq!(state.world().head(), Coord { r: -1, ul: 0 });
}

#[test]
fn fetch_and_store_route_the_origin() {
    let mut runner = runner("");
    let world = runner.world_mut();
    world.insert(ORIGIN, U8Cell(8));
    assert_eq!(world.fetch(ORIGIN, Input::Unread), Some(U8Cell(8)));
    assert_eq!(world.store(ORIGIN, U8Cell(9)), None);
    assert_eq!(world.get(ORIGIN), U8Cell(9));
    world.set_head(Coord { r: 0, ul: -1 });
    assert_eq!(world.fetch(ORIGIN, Input::Unread), None);
    assert_eq!(world.fetch(ORIGIN, Input::Value(U8Cell(3))), Some(U8Cell(3)));
    assert_eq!(world.fetch(ORIGIN, Input::Exhausted), Some(U8Cell(9)));
    assert_eq!(world.fetch(Coord { r: 1, ul: 0 }, Input::Value(U8Cell(3))), Some(U8Cell::one()));
    assert_eq!(world.store(ORIGIN, U8Cell(10)), None);
    assert_eq!(world.get(ORIGIN), U8Cell(10));
    world.set_head(Coord { r: 0, ul: 1 });
    assert_eq!(world.fetch(ORIGIN, Input::Unread), Some(U8Cell(10)));
    assert_eq!(world.store(ORIGIN, U8Cell(11)), Some(U8Cell(11)));
    assert_eq!(world.get(ORIGIN), U8Cell(10));
    assert_eq!(world.store(Coord { r: 5, ul: 5 }, U8Cell(11)), None);
    assert_eq!(world.get(Coord { r: 5, ul: 5 }), U8Cell(11));
}

#[test]
fn a_script_that_echoes_one_character() {
    // Read a value on the right of the origin, carry it over to the left
    // by multiplying with untouched cells, and swap it into the output.
    let mut runner = ScriptRunner::<U32Cell>::new(
        ScriptParser::parse(b">- *- >-! *- >-! *- >-! *- >- ~-", ParseMode::Strict).unwrap(),
    );
    let mut output = Vec::new();
    let mut asked = 0;
    let mut input = vec![U32Cell('\u{20AC}' as u32)].into_iter();
    loop {
        let mut step = runner.run_next();
        if let Step::NeedsInput(ins) = step {
            asked += 1;
            step = match input.next() {
                Some(cell) => runner.resume(&ins, Input::Value(cell)),
                None => runner.resume(&ins, Input::Exhausted),
            };
        }
        match step {
            Step::Finished => break,
            Step::Output(cell) => output.push(cell.to_char().unwrap()),
            Step::Quiet | Step::Jumped => {}
            other => panic!("unexpected step {:?}", other),
        }
    }
    assert_eq!(asked, 1);
    assert_eq!(output, vec!['\u{20AC}']);
    assert_eq!(runner.world().head(), Coord { r: -1, ul: 0 });
    assert_eq!(runner.script_head(), 10);
}
