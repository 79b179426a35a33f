//! A cell containing a [`u32`].

use crate::world::cell::{
    arith, arith_result, wrapped, ArithError, ArithOp, Cell, CellReader, CellStdinReadError,
    OverflowPolicy,
};
use crate::world::cell::utf8::{
    decode, decoded, encode, encoded, lemma_decodes_encoded, Decoded,
};
use vstd::prelude::*;
use vstd::std_specs::ops::{AddSpecImpl, DivSpecImpl, MulSpecImpl, SubSpecImpl};
use vstd::utf8::is_scalar;

verus! {

/// `char::from_u32` of std: the character whose Unicode scalar value is
/// the number, and `None` for a number that is no scalar value, that is
/// a surrogate or a number above `0x10FFFF`.
pub assume_specification[ char::from_u32 ](number: u32) -> (res: Option<char>)
    ensures
        res == if is_scalar(number) {
            Some(number as char)
        } else {
            None::<char>
        },
;

/// A cell containing a [`u32`].
#[derive(PartialEq, Eq, Structural, PartialOrd, Ord, Clone, Copy, Debug)]
pub struct U32Cell(pub u32);

impl U32Cell {
    /// The cell for a result of [`arith`] on wide numbers.
    fn of_result(res: Result<u32, ArithError>) -> (out: Result<U32Cell, ArithError>)
        ensures
            match res {
                Ok(v) => out is Ok && out.unwrap().0 == v,
                Err(e) => out == Err::<U32Cell, ArithError>(e),
            },
    {
        match res {
            Ok(v) => Ok(U32Cell(v)),
            Err(e) => Err(e),
        }
    }

    /// The cell that an operation other than division gives where
    /// results wrap around.
    pub open spec fn wrapping(self, op: ArithOp, rhs: U32Cell) -> U32Cell {
        U32Cell(
            arith_result(
                op,
                self.0 as nat,
                rhs.0 as nat,
                0xFFFF_FFFF,
                OverflowPolicy::Wrap,
            ).unwrap() as u32,
        )
    }
}

impl core::ops::Add<U32Cell> for U32Cell {
    type Output = U32Cell;

    /// Left plus right, wrapping around.
    fn add(self, rhs: U32Cell) -> (res: U32Cell) {
        U32Cell(wrapped(ArithOp::Add, self.0 as u32, rhs.0 as u32, 0xFFFF_FFFF) as u32)
    }
}

impl AddSpecImpl<U32Cell> for U32Cell {
    open spec fn obeys_add_spec() -> bool {
        true
    }

    open spec fn add_req(self, rhs: U32Cell) -> bool {
        true
    }

    open spec fn add_spec(self, rhs: U32Cell) -> U32Cell {
        self.wrapping(ArithOp::Add, rhs)
    }
}

impl core::ops::Sub<U32Cell> for U32Cell {
    type Output = U32Cell;

    /// Left minus right, wrapping around.
    fn sub(self, rhs: U32Cell) -> (res: U32Cell) {
        U32Cell(wrapped(ArithOp::Sub, self.0 as u32, rhs.0 as u32, 0xFFFF_FFFF) as u32)
    }
}

impl SubSpecImpl<U32Cell> for U32Cell {
    open spec fn obeys_sub_spec() -> bool {
        true
    }

    open spec fn sub_req(self, rhs: U32Cell) -> bool {
        true
    }

    open spec fn sub_spec(self, rhs: U32Cell) -> U32Cell {
        self.wrapping(ArithOp::Sub, rhs)
    }
}

impl core::ops::Mul<U32Cell> for U32Cell {
    type Output = U32Cell;

    /// Left times right, wrapping around.
    fn mul(self, rhs: U32Cell) -> (res: U32Cell) {
        U32Cell(wrapped(ArithOp::Mul, self.0 as u32, rhs.0 as u32, 0xFFFF_FFFF) as u32)
    }
}

impl MulSpecImpl<U32Cell> for U32Cell {
    open spec fn obeys_mul_spec() -> bool {
        true
    }

    open spec fn mul_req(self, rhs: U32Cell) -> bool {
        true
    }

    open spec fn mul_spec(self, rhs: U32Cell) -> U32Cell {
        self.wrapping(ArithOp::Mul, rhs)
    }
}

impl core::ops::Div<U32Cell> for U32Cell {
    type Output = U32Cell;

    /// Left divided by right, rounded towards zero, for a right that
    /// is not zero.
    fn div(self, rhs: U32Cell) -> (res: U32Cell) {
        U32Cell(self.0 / rhs.0)
    }
}

impl DivSpecImpl<U32Cell> for U32Cell {
    open spec fn obeys_div_spec() -> bool {
        true
    }

    open spec fn div_req(self, rhs: U32Cell) -> bool {
        rhs.0 != 0
    }

    open spec fn div_spec(self, rhs: U32Cell) -> U32Cell {
        U32Cell(self.0 / rhs.0)
    }
}

impl Cell for U32Cell {
    type StdinReader = StdinCharReader;

    open spec fn value(self) -> nat {
        self.0 as nat
    }

    open spec fn max_value() -> nat {
        0xFFFF_FFFF
    }

    proof fn lemma_value_in_range(self) {
    }

    proof fn lemma_max_value_in_range() {
    }

    proof fn lemma_value_exists(value: nat) {
        assert(U32Cell(value as u32).value() == value);
    }

    proof fn lemma_value_determines(self, other: Self) {
    }

    fn zero() -> (res: Self) {
        U32Cell(0)
    }

    fn one() -> (res: Self) {
        U32Cell(1)
    }

    fn from_number(number: u32) -> (res: Option<Self>) {
        Some(U32Cell(number))
    }

    fn number(&self) -> (res: u32) {
        self.0
    }

    fn is_zero(&self) -> (res: bool) {
        self.0 == 0
    }

    fn get_usize_val(&self) -> (res: usize) {
        self.0 as usize
    }

    fn sum(self, rhs: Self, policy: OverflowPolicy) -> (res: Result<Self, ArithError>) {
        U32Cell::of_result(arith(ArithOp::Add, self.0, rhs.0, 0xFFFF_FFFF, policy))
    }

    fn difference(self, rhs: Self, policy: OverflowPolicy) -> (res: Result<Self, ArithError>) {
        U32Cell::of_result(arith(ArithOp::Sub, self.0, rhs.0, 0xFFFF_FFFF, policy))
    }

    fn product(self, rhs: Self, policy: OverflowPolicy) -> (res: Result<Self, ArithError>) {
        U32Cell::of_result(arith(ArithOp::Mul, self.0, rhs.0, 0xFFFF_FFFF, policy))
    }

    fn quotient(self, rhs: Self) -> (res: Result<Self, ArithError>) {
        U32Cell::of_result(arith(ArithOp::Div, self.0, rhs.0, 0xFFFF_FFFF, OverflowPolicy::Fail))
    }

    fn to_char(&self) -> (res: Option<char>) {
        char::from_u32(self.0)
    }

    /// A wide cell is written as its character, in UTF-8; a cell that
    /// has no character form is written as nothing.
    open spec fn rendered(self) -> Seq<u8> {
        encoded(self.0)
    }

    proof fn lemma_reads_back(self, taken: int) {
        lemma_decodes_encoded(self.0, taken);
    }

    fn to_bytes(&self) -> (res: Vec<u8>) {
        encode(self.0)
    }

    fn from_char(ch: char) -> (res: Option<Self>) {
        Some(U32Cell(ch as u32))
    }

    fn create_stdin_reader() -> (res: Self::StdinReader) {
        StdinCharReader::create()
    }
}

/// Turns the bytes of an input stream into wide cells: every Unicode
/// scalar value, written in UTF-8, is a cell.
#[derive(Debug)]
pub struct StdinCharReader {
    /// The bytes taken in since the last cell or error.
    buffer: Vec<u8>,
}

impl CellReader<U32Cell> for StdinCharReader {
    closed spec fn pending(&self) -> Seq<u8> {
        self.buffer@
    }

    open spec fn unit(bytes: Seq<u8>) -> Option<Result<U32Cell, CellStdinReadError>> {
        match decoded(bytes) {
            Decoded::Scalar(scalar) => Some(Ok(U32Cell(scalar))),
            Decoded::Incomplete => None,
            Decoded::Malformed => Some(Err(CellStdinReadError::Utf8)),
        }
    }

    fn create() -> (res: Self) {
        StdinCharReader { buffer: Vec::new() }
    }

    fn fail(&mut self) -> (res: CellStdinReadError) {
        self.buffer.clear();
        CellStdinReadError::Io
    }

    fn push(&mut self, byte: u8) -> (res: Option<Result<U32Cell, CellStdinReadError>>) {
        self.buffer.push(byte);
        match decode(self.buffer.as_slice()) {
            Decoded::Scalar(scalar) => {
                self.buffer.clear();
                Some(Ok(U32Cell(scalar)))
            },
            Decoded::Incomplete => None,
            Decoded::Malformed => {
                self.buffer.clear();
                Some(Err(CellStdinReadError::Utf8))
            },
        }
    }
}

} // verus!

