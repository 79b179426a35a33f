//! Cell traits and types.

pub mod narrow;
pub mod utf8;
pub mod wide;

pub use narrow::{StdinU8Reader, U8Cell};
pub use wide::{StdinCharReader, U32Cell};

use vstd::arithmetic::div_mod::{lemma_mod_add_multiples_vanish, lemma_small_mod};
use vstd::prelude::*;
use vstd::utf8::is_scalar;

verus! {

/// What becomes of a sum, a difference or a product that a cell cannot
/// hold.
#[derive(PartialEq, Eq, Structural, Clone, Copy, Debug)]
pub enum OverflowPolicy {
    /// The result is reduced modulo the number of values of a cell.
    Wrap,
    /// The result is the nearest value that a cell holds.
    Saturate,
    /// The operation fails.
    Fail,
}

/// One of the four operations on two cells.
#[derive(PartialEq, Eq, Structural, Clone, Copy, Debug)]
pub enum ArithOp {
    /// Left plus right.
    Add,
    /// Left minus right.
    Sub,
    /// Left times right.
    Mul,
    /// Left divided by right, rounded towards zero.
    Div,
}

/// An operation on two cells has no result.
#[derive(PartialEq, Eq, Structural, Clone, Copy, Debug)]
pub enum ArithError {
    /// The divisor is zero.
    DivideByZero,
    /// The result is above what a cell holds, and the policy is to fail.
    Overflow,
    /// The result is below zero, and the policy is to fail.
    Underflow,
}

/// An error occured while reading cells from a stream of bytes.
#[derive(PartialEq, Eq, Structural, Clone, Copy, Debug)]
pub enum CellStdinReadError {
    /// An error was returned by the reader.
    Io,
    /// An invalid UTF8 sequence was found.
    Utf8,
}

/// What a policy makes of the exact result of an operation, for cells
/// that hold the numbers from zero to `max`.
pub open spec fn fitted(exact: int, max: nat, policy: OverflowPolicy) -> Result<nat, ArithError> {
    if 0 <= exact <= max {
        Ok(exact as nat)
    } else {
        match policy {
            OverflowPolicy::Wrap => Ok((exact % (max as int + 1)) as nat),
            OverflowPolicy::Saturate => Ok(
                if exact < 0 {
                    0
                } else {
                    max
                },
            ),
            OverflowPolicy::Fail => Err(
                if exact < 0 {
                    ArithError::Underflow
                } else {
                    ArithError::Overflow
                },
            ),
        }
    }
}

/// The result of an operation on the numbers of two cells that hold the
/// numbers from zero to `max`. Division is that of natural numbers and
/// has no result for a divisor of zero; the other three are exact where
/// a cell holds the result and follow the policy where it does not.
pub open spec fn arith_result(
    op: ArithOp,
    lhs: nat,
    rhs: nat,
    max: nat,
    policy: OverflowPolicy,
) -> Result<nat, ArithError> {
    match op {
        ArithOp::Add => fitted(lhs as int + rhs as int, max, policy),
        ArithOp::Sub => fitted(lhs as int - rhs as int, max, policy),
        ArithOp::Mul => fitted(lhs as int * rhs as int, max, policy),
        ArithOp::Div => if rhs == 0 {
            Err(ArithError::DivideByZero)
        } else {
            Ok(lhs / rhs)
        },
    }
}

/// The character form of a number: the Unicode scalar value of that
/// number, where there is one.
pub open spec fn char_of(value: nat) -> Option<char> {
    if value <= u32::MAX && is_scalar(value as u32) {
        Some(value as char)
    } else {
        None
    }
}

/// The number that a character stands for, where a cell that holds the
/// numbers from zero to `max` can hold it.
pub open spec fn value_of_char(ch: char, max: nat) -> Option<nat> {
    if ch as u32 <= max {
        Some((ch as u32) as nat)
    } else {
        None
    }
}

/// The number of steps that a cell's number stands for in a move or a
/// jump: the number itself, or the largest `usize` where that is less.
pub open spec fn magnitude_of(value: nat) -> usize {
    if value <= usize::MAX {
        value as usize
    } else {
        usize::MAX
    }
}

/// Computes [`arith_result`] on numbers of at most 32 bits.
pub fn arith(op: ArithOp, lhs: u32, rhs: u32, max: u32, policy: OverflowPolicy) -> (res: Result<
    u32,
    ArithError,
>)
    requires
        lhs <= max,
        rhs <= max,
    ensures
        res is Ok ==> res.unwrap() <= max,
        match arith_result(op, lhs as nat, rhs as nat, max as nat, policy) {
            Ok(v) => res == Ok::<u32, ArithError>(v as u32),
            Err(e) => res == Err::<u32, ArithError>(e),
        },
{
    let l = lhs as u64;
    let r = rhs as u64;
    let modulus = max as u64 + 1;
    match op {
        ArithOp::Add => fit_above(l + r, max, policy),
        ArithOp::Mul => {
            assert(l * r <= 0xFFFF_FFFF * 0xFFFF_FFFF) by (nonlinear_arith)
                requires
                    l <= 0xFFFF_FFFF,
                    r <= 0xFFFF_FFFF,
            ;
            fit_above(l * r, max, policy)
        },
        ArithOp::Sub => {
            if l >= r {
                Ok((l - r) as u32)
            } else {
                match policy {
                    OverflowPolicy::Wrap => {
                        proof {
                            let m = modulus as int;
                            lemma_mod_add_multiples_vanish(l - r, m);
                            lemma_small_mod((m + l - r) as nat, m as nat);
                        }
                        Ok((modulus + l - r) as u32)
                    },
                    OverflowPolicy::Saturate => Ok(0),
                    OverflowPolicy::Fail => Err(ArithError::Underflow),
                }
            }
        },
        ArithOp::Div => {
            if rhs == 0 {
                Err(ArithError::DivideByZero)
            } else {
                Ok(lhs / rhs)
            }
        },
    }
}

/// Computes the sum, the difference or the product that wraps around:
/// the one result of [`arith_result`] that never fails.
pub fn wrapped(op: ArithOp, lhs: u32, rhs: u32, max: u32) -> (res: u32)
    requires
        lhs <= max,
        rhs <= max,
        op != ArithOp::Div,
    ensures
        res <= max,
        arith_result(op, lhs as nat, rhs as nat, max as nat, OverflowPolicy::Wrap) == Ok::<
            nat,
            ArithError,
        >(res as nat),
{
    match arith(op, lhs, rhs, max, OverflowPolicy::Wrap) {
        Ok(v) => v,
        Err(_) => vstd::pervasive::unreached(),
    }
}

/// Computes [`fitted`] for an exact result that is not below zero.
fn fit_above(exact: u64, max: u32, policy: OverflowPolicy) -> (res: Result<u32, ArithError>)
    ensures
        res is Ok ==> res.unwrap() <= max,
        match fitted(exact as int, max as nat, policy) {
            Ok(v) => res == Ok::<u32, ArithError>(v as u32),
            Err(e) => res == Err::<u32, ArithError>(e),
        },
{
    if exact <= max as u64 {
        Ok(exact as u32)
    } else {
        match policy {
            OverflowPolicy::Wrap => Ok((exact % (max as u64 + 1)) as u32),
            OverflowPolicy::Saturate => Ok(max),
            OverflowPolicy::Fail => Err(ArithError::Overflow),
        }
    }
}

/// Turns the bytes of an input stream into cells, one byte at a time.
pub trait CellReader<C>: Sized {
    /// The bytes taken in since the last cell or error.
    spec fn pending(&self) -> Seq<u8>;

    /// What a run of bytes amounts to: a cell, an error, or nothing yet.
    spec fn unit(bytes: Seq<u8>) -> Option<Result<C, CellStdinReadError>>;

    /// A reader that has taken in nothing.
    fn create() -> (res: Self)
        ensures
            res.pending() == Seq::<u8>::empty(),
    ;

    /// Takes note that the stream has failed: the bytes taken in since
    /// the last cell are given up, and the failure is handed back as the
    /// error to report.
    fn fail(&mut self) -> (res: CellStdinReadError)
        ensures
            res == CellStdinReadError::Io,
            final(self).pending() == Seq::<u8>::empty(),
    ;

    /// Takes in the next byte of the stream. Returns the cell that the
    /// bytes since the last cell amount to, or the error, and starts
    /// afresh; returns `None` where more bytes are needed.
    fn push(&mut self, byte: u8) -> (res: Option<Result<C, CellStdinReadError>>)
        ensures
            res == Self::unit(old(self).pending().push(byte)),
            final(self).pending() == if res is None {
                old(self).pending().push(byte)
            } else {
                Seq::<u8>::empty()
            },
    ;
}

/// A cell that can be in a world: a number from zero to a largest value
/// that is the same for all cells of one kind.
pub trait Cell: Sized + Copy {
    /// Turns the bytes of an input stream into cells of this kind.
    type StdinReader: CellReader<Self>;

    /// The number that the cell holds.
    spec fn value(self) -> nat;

    /// The largest number that a cell of this kind holds.
    spec fn max_value() -> nat;

    /// A cell holds no number above the largest of its kind.
    proof fn lemma_value_in_range(self)
        ensures
            self.value() <= Self::max_value(),
    ;

    /// Every kind of cell holds one, and none more than 32 bits.
    proof fn lemma_max_value_in_range()
        ensures
            1 <= Self::max_value() <= u32::MAX,
    ;

    /// Every number up to the largest is the number of some cell.
    proof fn lemma_value_exists(value: nat)
        requires
            value <= Self::max_value(),
        ensures
            exists|c: Self| c.value() == value,
    ;

    /// Two cells that hold the same number are the same cell.
    proof fn lemma_value_determines(self, other: Self)
        ensures
            self.value() == other.value() ==> self == other,
    ;

    /// A cell containing value zero.
    fn zero() -> (res: Self)
        ensures
            res.value() == 0,
    ;

    /// A cell containing value one.
    fn one() -> (res: Self)
        ensures
            res.value() == 1,
    ;

    /// The cell that holds a number, where one of this kind does.
    fn from_number(number: u32) -> (res: Option<Self>)
        ensures
            res is Some <==> number <= Self::max_value(),
            res is Some ==> res.unwrap().value() == number,
    ;

    /// The number that the cell holds.
    fn number(&self) -> (res: u32)
        ensures
            res == self.value(),
    ;

    /// Whether the cell holds zero.
    fn is_zero(&self) -> (res: bool)
        ensures
            res == (self.value() == 0),
    ;

    /// Converts value to usize: the number of steps that the cell stands
    /// for in a move or a jump.
    fn get_usize_val(&self) -> (res: usize)
        ensures
            res == magnitude_of(self.value()),
    ;

    /// Left plus right.
    fn sum(self, rhs: Self, policy: OverflowPolicy) -> (res: Result<Self, ArithError>)
        ensures
            match arith_result(ArithOp::Add, self.value(), rhs.value(), Self::max_value(), policy) {
                Ok(v) => res is Ok && res.unwrap().value() == v,
                Err(e) => res == Err::<Self, ArithError>(e),
            },
    ;

    /// Left minus right.
    fn difference(self, rhs: Self, policy: OverflowPolicy) -> (res: Result<Self, ArithError>)
        ensures
            match arith_result(ArithOp::Sub, self.value(), rhs.value(), Self::max_value(), policy) {
                Ok(v) => res is Ok && res.unwrap().value() == v,
                Err(e) => res == Err::<Self, ArithError>(e),
            },
    ;

    /// Left times right.
    fn product(self, rhs: Self, policy: OverflowPolicy) -> (res: Result<Self, ArithError>)
        ensures
            match arith_result(ArithOp::Mul, self.value(), rhs.value(), Self::max_value(), policy) {
                Ok(v) => res is Ok && res.unwrap().value() == v,
                Err(e) => res == Err::<Self, ArithError>(e),
            },
    ;

    /// Left divided by right, rounded towards zero.
    fn quotient(self, rhs: Self) -> (res: Result<Self, ArithError>)
        ensures
            match arith_result(
                    ArithOp::Div,
                    self.value(),
                    rhs.value(),
                    Self::max_value(),
                    OverflowPolicy::Fail,
                ) {
                Ok(v) => res is Ok && res.unwrap().value() == v,
                Err(e) => res == Err::<Self, ArithError>(e),
            },
    ;

    /// The character form of the cell: the character whose number the
    /// cell holds. A cell whose number is no Unicode scalar value has
    /// none.
    fn to_char(&self) -> (res: Option<char>)
        ensures
            res == char_of(self.value()),
    ;

    /// The bytes in which the cell is written to an output stream.
    spec fn rendered(self) -> Seq<u8>;

    /// What is written is read back: the reader of this kind of cell
    /// makes the cell of the bytes in which it is written, at the last
    /// of them and not before.
    proof fn lemma_reads_back(self, taken: int)
        requires
            0 < taken <= self.rendered().len(),
        ensures
            <Self::StdinReader as CellReader<Self>>::unit(self.rendered().subrange(0, taken))
                == if taken == self.rendered().len() {
                Some(Ok::<Self, CellStdinReadError>(self))
            } else {
                None
            },
    ;

    /// The bytes in which the cell is written to an output stream.
    fn to_bytes(&self) -> (res: Vec<u8>)
        ensures
            res@ == self.rendered(),
    ;

    /// The cell that a character is the form of, where a cell of this
    /// kind holds its number.
    fn from_char(ch: char) -> (res: Option<Self>)
        ensures
            res is Some <==> value_of_char(ch, Self::max_value()) is Some,
            res is Some ==> Some(res.unwrap().value()) == value_of_char(ch, Self::max_value()),
    ;

    /// Creates a reader that turns the bytes of an input stream into
    /// cells of this kind.
    fn create_stdin_reader() -> (res: Self::StdinReader)
        ensures
            res.pending() == Seq::<u8>::empty(),
    ;
}

/// The cell of a kind that holds a number, for a number that one holds.
pub open spec fn cell_of<C: Cell>(value: nat) -> C {
    choose|c: C| c.value() == value
}

/// The cell of a kind that holds a number does hold it, and is the only
/// cell that does.
pub proof fn lemma_cell_of<C: Cell>(c: C)
    ensures
        cell_of::<C>(c.value()) == c,
{
    c.lemma_value_determines(cell_of::<C>(c.value()));
}

/// Every kind of cell has a cell that holds zero and a cell that holds
/// one, and they differ.
pub proof fn lemma_zero_and_one<C: Cell>()
    ensures
        cell_of::<C>(0).value() == 0,
        cell_of::<C>(1).value() == 1,
        cell_of::<C>(0) != cell_of::<C>(1),
{
    C::lemma_max_value_in_range();
    C::lemma_value_exists(0);
    C::lemma_value_exists(1);
}

/// The result of an operation follows the policy only where the exact
/// result does not fit, is a number that a cell holds, and fails only on
/// division by zero unless the policy is to fail.
pub proof fn lemma_arith_result(op: ArithOp, lhs: nat, rhs: nat, max: nat, policy: OverflowPolicy)
    requires
        lhs <= max,
        rhs <= max,
    ensures
        arith_result(op, lhs, rhs, max, policy) is Ok ==> arith_result(
            op,
            lhs,
            rhs,
            max,
            policy,
        ).unwrap() <= max,
        arith_result(op, lhs, rhs, max, policy) is Err ==> (op == ArithOp::Div && rhs == 0)
            || policy == OverflowPolicy::Fail,
        op == ArithOp::Add && lhs + rhs <= max ==> arith_result(op, lhs, rhs, max, policy) == Ok::<
            nat,
            ArithError,
        >(lhs + rhs),
        op == ArithOp::Sub && rhs <= lhs ==> arith_result(op, lhs, rhs, max, policy) == Ok::<
            nat,
            ArithError,
        >((lhs - rhs) as nat),
        op == ArithOp::Mul && lhs * rhs <= max ==> arith_result(op, lhs, rhs, max, policy) == Ok::<
            nat,
            ArithError,
        >(lhs * rhs),
{
    assert(0 <= lhs * rhs) by (nonlinear_arith)
        requires
            0 <= lhs,
            0 <= rhs,
    ;
    if op == ArithOp::Div && rhs != 0 {
        assert(lhs / rhs <= lhs) by (nonlinear_arith)
            requires
                0 <= lhs,
                0 < rhs,
        ;
    }
    let m = (max + 1) as int;
    assert(0 <= (lhs as int + rhs as int) % m < m);
    assert(0 <= (lhs as int - rhs as int) % m < m);
    assert(0 <= (lhs as int * rhs as int) % m < m);
}

/// Rendering a cell as a character and reading the character back
/// gives the number of the cell, for every cell that has a character
/// form. Every number up to 255 has one, so every narrow cell; of the
/// others, exactly the Unicode scalar values have one.
pub proof fn lemma_char_round_trip(value: nat, max: nat)
    requires
        value <= max,
        max <= u32::MAX,
    ensures
        char_of(value) is Some ==> value_of_char(char_of(value).unwrap(), max) == Some(value),
        value <= 0xFF ==> char_of(value) is Some,
        char_of(value) is Some <==> value <= 0x10FFFF && !(0xD800 <= value <= 0xDFFF),
{
}

/// A cell that has a character form is the cell that its character
/// form reads as, whatever the kind of cell.
pub proof fn lemma_cell_round_trip<C: Cell>(c: C)
    requires
        char_of(c.value()) is Some,
    ensures
        value_of_char(char_of(c.value()).unwrap(), C::max_value()) == Some(c.value()),
        cell_of::<C>(value_of_char(char_of(c.value()).unwrap(), C::max_value()).unwrap()) == c,
{
    c.lemma_value_in_range();
    C::lemma_max_value_in_range();
    lemma_char_round_trip(c.value(), C::max_value());
    lemma_cell_of(c);
}

/// Reading a character as a cell and rendering the cell gives the
/// character back, wherever the cell holds its number.
pub proof fn lemma_char_round_trip_back(ch: char, max: nat)
    ensures
        value_of_char(ch, max) is Some ==> char_of(value_of_char(ch, max).unwrap()) == Some(ch),
{
    vstd::utf8::char_is_scalar(ch);
}

} // verus!
