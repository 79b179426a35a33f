//! A cell containing a [`u8`].

use crate::world::cell::{
    arith, arith_result, wrapped, ArithError, ArithOp, Cell, CellReader, CellStdinReadError,
    OverflowPolicy,
};
use vstd::prelude::*;
use vstd::std_specs::ops::{AddSpecImpl, DivSpecImpl, MulSpecImpl, SubSpecImpl};

verus! {

/// A cell containing a [`u8`].
#[derive(PartialEq, Eq, Structural, PartialOrd, Ord, Clone, Copy, Debug)]
pub struct U8Cell(pub u8);

impl U8Cell {
    /// The cell for a result of [`arith`] on narrow numbers.
    fn of_result(res: Result<u32, ArithError>) -> (out: Result<U8Cell, ArithError>)
        requires
            res is Ok ==> res.unwrap() <= 0xFF,
        ensures
            match res {
                Ok(v) => out is Ok && out.unwrap().0 == v,
                Err(e) => out == Err::<U8Cell, ArithError>(e),
            },
    {
        match res {
            Ok(v) => Ok(U8Cell(v as u8)),
            Err(e) => Err(e),
        }
    }

    /// The cell that an operation other than division gives where
    /// results wrap around.
    pub open spec fn wrapping(self, op: ArithOp, rhs: U8Cell) -> U8Cell {
        U8Cell(
            arith_result(op, self.0 as nat, rhs.0 as nat, 0xFF, OverflowPolicy::Wrap).unwrap()
                as u8,
        )
    }
}

impl core::ops::Add<U8Cell> for U8Cell {
    type Output = U8Cell;

    /// Left plus right, wrapping around.
    fn add(self, rhs: U8Cell) -> (res: U8Cell) {
        U8Cell(wrapped(ArithOp::Add, self.0 as u32, rhs.0 as u32, 0xFF) as u8)
    }
}

impl AddSpecImpl<U8Cell> for U8Cell {
    open spec fn obeys_add_spec() -> bool {
        true
    }

    open spec fn add_req(self, rhs: U8Cell) -> bool {
        true
    }

    open spec fn add_spec(self, rhs: U8Cell) -> U8Cell {
        self.wrapping(ArithOp::Add, rhs)
    }
}

impl core::ops::Sub<U8Cell> for U8Cell {
    type Output = U8Cell;

    /// Left minus right, wrapping around.
    fn sub(self, rhs: U8Cell) -> (res: U8Cell) {
        U8Cell(wrapped(ArithOp::Sub, self.0 as u32, rhs.0 as u32, 0xFF) as u8)
    }
}

impl SubSpecImpl<U8Cell> for U8Cell {
    open spec fn obeys_sub_spec() -> bool {
        true
    }

    open spec fn sub_req(self, rhs: U8Cell) -> bool {
        true
    }

    open spec fn sub_spec(self, rhs: U8Cell) -> U8Cell {
        self.wrapping(ArithOp::Sub, rhs)
    }
}

impl core::ops::Mul<U8Cell> for U8Cell {
    type Output = U8Cell;

    /// Left times right, wrapping around.
    fn mul(self, rhs: U8Cell) -> (res: U8Cell) {
        U8Cell(wrapped(ArithOp::Mul, self.0 as u32, rhs.0 as u32, 0xFF) as u8)
    }
}

impl MulSpecImpl<U8Cell> for U8Cell {
    open spec fn obeys_mul_spec() -> bool {
        true
    }

    open spec fn mul_req(self, rhs: U8Cell) -> bool {
        true
    }

    open spec fn mul_spec(self, rhs: U8Cell) -> U8Cell {
        self.wrapping(ArithOp::Mul, rhs)
    }
}

impl core::ops::Div<U8Cell> for U8Cell {
    type Output = U8Cell;

    /// Left divided by right, rounded towards zero, for a right that
    /// is not zero.
    fn div(self, rhs: U8Cell) -> (res: U8Cell) {
        U8Cell(self.0 / rhs.0)
    }
}

impl DivSpecImpl<U8Cell> for U8Cell {
    open spec fn obeys_div_spec() -> bool {
        true
    }

    open spec fn div_req(self, rhs: U8Cell) -> bool {
        rhs.0 != 0
    }

    open spec fn div_spec(self, rhs: U8Cell) -> U8Cell {
        U8Cell(self.0 / rhs.0)
    }
}

impl Cell for U8Cell {
    type StdinReader = StdinU8Reader;

    open spec fn value(self) -> nat {
        self.0 as nat
    }

    open spec fn max_value() -> nat {
        0xFF
    }

    proof fn lemma_value_in_range(self) {
    }

    proof fn lemma_max_value_in_range() {
    }

    proof fn lemma_value_exists(value: nat) {
        assert(U8Cell(value as u8).value() == value);
    }

    proof fn lemma_value_determines(self, other: Self) {
    }

    fn zero() -> (res: Self) {
        U8Cell(0)
    }

    fn one() -> (res: Self) {
        U8Cell(1)
    }

    fn from_number(number: u32) -> (res: Option<Self>) {
        if number <= 0xFF {
            Some(U8Cell(number as u8))
        } else {
            None
        }
    }

    fn number(&self) -> (res: u32) {
        self.0 as u32
    }

    fn is_zero(&self) -> (res: bool) {
        self.0 == 0
    }

    fn get_usize_val(&self) -> (res: usize) {
        self.0 as usize
    }

    fn sum(self, rhs: Self, policy: OverflowPolicy) -> (res: Result<Self, ArithError>) {
        U8Cell::of_result(arith(ArithOp::Add, self.0 as u32, rhs.0 as u32, 0xFF, policy))
    }

    fn difference(self, rhs: Self, policy: OverflowPolicy) -> (res: Result<Self, ArithError>) {
        U8Cell::of_result(arith(ArithOp::Sub, self.0 as u32, rhs.0 as u32, 0xFF, policy))
    }

    fn product(self, rhs: Self, policy: OverflowPolicy) -> (res: Result<Self, ArithError>) {
        U8Cell::of_result(arith(ArithOp::Mul, self.0 as u32, rhs.0 as u32, 0xFF, policy))
    }

    fn quotient(self, rhs: Self) -> (res: Result<Self, ArithError>) {
        U8Cell::of_result(
            arith(ArithOp::Div, self.0 as u32, rhs.0 as u32, 0xFF, OverflowPolicy::Fail),
        )
    }

    fn to_char(&self) -> (res: Option<char>) {
        Some(self.0 as char)
    }

    /// A narrow cell is written as the one byte that it holds.
    open spec fn rendered(self) -> Seq<u8> {
        seq![self.0]
    }

    proof fn lemma_reads_back(self, taken: int) {
        assert(self.rendered().subrange(0, taken) =~= seq![self.0]);
    }

    fn to_bytes(&self) -> (res: Vec<u8>) {
        let mut out: Vec<u8> = Vec::new();
        out.push(self.0);
        assert(out@ =~= seq![self.0]);
        out
    }

    fn from_char(ch: char) -> (res: Option<Self>) {
        let code = ch as u32;
        if code <= 0xFF {
            Some(U8Cell(code as u8))
        } else {
            None
        }
    }

    fn create_stdin_reader() -> (res: Self::StdinReader) {
        StdinU8Reader::create()
    }
}

/// Turns the bytes of an input stream into narrow cells: every byte is
/// a cell.
#[derive(Clone, Copy, Debug)]
pub struct StdinU8Reader {}

impl CellReader<U8Cell> for StdinU8Reader {
    open spec fn pending(&self) -> Seq<u8> {
        Seq::<u8>::empty()
    }

    open spec fn unit(bytes: Seq<u8>) -> Option<Result<U8Cell, CellStdinReadError>> {
        if bytes.len() == 0 {
            None
        } else {
            Some(Ok(U8Cell(bytes[0])))
        }
    }

    fn create() -> (res: Self) {
        StdinU8Reader {  }
    }

    fn fail(&mut self) -> (res: CellStdinReadError) {
        CellStdinReadError::Io
    }

    fn push(&mut self, byte: u8) -> (res: Option<Result<U8Cell, CellStdinReadError>>) {
        assert(Seq::<u8>::empty().push(byte)[0] == byte);
        Some(Ok(U8Cell(byte)))
    }
}

} // verus!
