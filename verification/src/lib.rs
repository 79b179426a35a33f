//! Interpreter core for Isolang, a small language whose state is a
//! triangular grid of numeric cells visited by a single movable head.
//!
//! A script is a run of bytes. [`ScriptParser::parse`] turns it into
//! instructions, and a [`ScriptRunner`] runs them on a [`World`] one step
//! at a time. The library reads and writes nothing itself: a step hands
//! back a [`Step`] that tells the caller what is left to do. For
//! [`Step::Output`] the caller writes the bytes of the cell, as
//! [`Cell::to_bytes`] gives them.
//! For [`Step::NeedsInput`] it reads the next cell of the input, with
//! the [`CellReader`] of the kind of cell, and hands it to
//! [`ScriptRunner::resume`] together with the instruction that waits.
//! For [`Step::Fault`] it decides whether the run goes on.

pub mod config;
pub mod parser;
pub mod runner;
pub mod world;

pub use config::CellMode;
pub use parser::{ParseError, ParseMode, ScriptParser};
pub use runner::{
    BadInvertError, Ins, InsMod, InsModKind, Input, RunError, ScriptRunner, ScriptRunnerState, Step,
};
pub use world::cell::{OverflowPolicy, StdinCharReader, StdinU8Reader, U32Cell, U8Cell};
pub use world::{Adj, Axis, Cell, CellReader, CellStdinReadError, Coord, Dir, World};
