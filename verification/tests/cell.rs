use isolang::config::CellMode;
use isolang::world::cell::utf8::{decode, encode, Decoded};
use isolang::world::cell::{
    arith, wrapped, ArithError, ArithOp, OverflowPolicy, StdinCharReader, StdinU8Reader, U32Cell, U8Cell,
};
use isolang::world::{Cell, CellReader, CellStdinReadError};

const POLICIES: [OverflowPolicy; 3] =
    [OverflowPolicy::Wrap, OverflowPolicy::Saturate, OverflowPolicy::Fail];

#[test]
fn zero_and_one_are_distinct_constants() {
    assert_eq!(U8Cell::zero(), U8Cell(0));
    assert_eq!(U8Cell::one(), U8Cell(1));
    assert_eq!(U32Cell::zero(), U32Cell(0));
    assert_eq!(U32Cell::one(), U32Cell(1));
    assert_ne!(U8Cell::zero(), U8Cell::one());
    assert_ne!(U32Cell::zero(), U32Cell::one());
    assert!(U8Cell::zero().is_zero());
    assert!(!U8Cell::one().is_zero());
    assert!(U32Cell(0).is_zero());
    assert!(!U32Cell(0x1_0000).is_zero());
}

#[test]
fn exact_results_do_not_depend_on_the_policy() {
    for policy in POLICIES {
        assert_eq!(U8Cell(200).sum(U8Cell(55), policy), Ok(U8Cell(255)));
        assert_eq!(U8Cell(200).difference(U8Cell(200), policy), Ok(U8Cell(0)));
        assert_eq!(U8Cell(15).product(U8Cell(17), policy), Ok(U8Cell(255)));
        assert_eq!(U32Cell(4_000_000_000).sum(U32Cell(294_967_295), policy), Ok(U32Cell(u32::MAX)));
        assert_eq!(U32Cell(7).difference(U32Cell(3), policy), Ok(U32Cell(4)));
        assert_eq!(U32Cell(65_535).product(U32Cell(65_537), policy), Ok(U32Cell(u32::MAX)));
        assert_eq!(arith(ArithOp::Add, 2, 3, 10, policy), Ok(5));
        assert_eq!(arith(ArithOp::Mul, 2, 5, 10, policy), Ok(10));
    }
}

#[test]
fn wrapping_reduces_modulo_the_number_of_values() {
    let p = OverflowPolicy::Wrap;
    assert_eq!(U8Cell(200).sum(U8Cell(56), p), Ok(U8Cell(0)));
    assert_eq!(U8Cell(255).sum(U8Cell(255), p), Ok(U8Cell(254)));
    assert_eq!(U8Cell(3).difference(U8Cell(5), p), Ok(U8Cell(254)));
    assert_eq!(U8Cell(0).difference(U8Cell(255), p), Ok(U8Cell(1)));
    assert_eq!(U8Cell(16).product(U8Cell(16), p), Ok(U8Cell(0)));
    assert_eq!(U8Cell(255).product(U8Cell(255), p), Ok(U8Cell(1)));
    assert_eq!(U32Cell(u32::MAX).sum(U32Cell(2), p), Ok(U32Cell(1)));
    assert_eq!(U32Cell(0).difference(U32Cell(1), p), Ok(U32Cell(u32::MAX)));
    assert_eq!(U32Cell(u32::MAX).product(U32Cell(u32::MAX), p), Ok(U32Cell(1)));
    assert_eq!(U32Cell(0x1_0000).product(U32Cell(0x1_0000), p), Ok(U32Cell(0)));
    assert_eq!(arith(ArithOp::Add, 9, 9, 10, p), Ok(7));
    assert_eq!(arith(ArithOp::Sub, 2, 9, 10, p), Ok(4));
    assert_eq!(arith(ArithOp::Mul, 7, 8, 10, p), Ok(1));
}

#[test]
fn saturating_stops_at_the_nearest_value() {
    let p = OverflowPolicy::Saturate;
    assert_eq!(U8Cell(200).sum(U8Cell(56), p), Ok(U8Cell(255)));
    assert_eq!(U8Cell(3).difference(U8Cell(5), p), Ok(U8Cell(0)));
    assert_eq!(U8Cell(16).product(U8Cell(16), p), Ok(U8Cell(255)));
    assert_eq!(U32Cell(u32::MAX).sum(U32Cell(1), p), Ok(U32Cell(u32::MAX)));
    assert_eq!(U32Cell(0).difference(U32Cell(1), p), Ok(U32Cell(0)));
    assert_eq!(U32Cell(0x1_0000).product(U32Cell(0x1_0000), p), Ok(U32Cell(u32::MAX)));
}

#[test]
fn failing_reports_overflow_and_underflow() {
    let p = OverflowPolicy::Fail;
    assert_eq!(U8Cell(200).sum(U8Cell(56), p), Err(ArithError::Overflow));
    assert_eq!(U8Cell(3).difference(U8Cell(5), p), Err(ArithError::Underflow));
    assert_eq!(U8Cell(16).product(U8Cell(16), p), Err(ArithError::Overflow));
    assert_eq!(U32Cell(u32::MAX).sum(U32Cell(1), p), Err(ArithError::Overflow));
    assert_eq!(U32Cell(0).difference(U32Cell(1), p), Err(ArithError::Underflow));
    assert_eq!(U32Cell(0x1_0000).product(U32Cell(0x1_0000), p), Err(ArithError::Overflow));
}

#[test]
fn division_is_unsigned_and_fails_on_zero() {
    assert_eq!(U8Cell(255).quotient(U8Cell(2)), Ok(U8Cell(127)));
    assert_eq!(U8Cell(7).quotient(U8Cell(8)), Ok(U8Cell(0)));
    assert_eq!(U8Cell(7).quotient(U8Cell(1)), Ok(U8Cell(7)));
    assert_eq!(U8Cell(7).quotient(U8Cell(0)), Err(ArithError::DivideByZero));
    assert_eq!(U8Cell(0).quotient(U8Cell(0)), Err(ArithError::DivideByZero));
    assert_eq!(U32Cell(u32::MAX).quotient(U32Cell(2)), Ok(U32Cell(0x7FFF_FFFF)));
    assert_eq!(U32Cell(u32::MAX).quotient(U32Cell(0)), Err(ArithError::DivideByZero));
    for policy in POLICIES {
        assert_eq!(arith(ArithOp::Div, 9, 2, 10, policy), Ok(4));
        assert_eq!(arith(ArithOp::Div, 9, 0, 10, policy), Err(ArithError::DivideByZero));
    }
}

#[test]
fn magnitude_is_the_number() {
    assert_eq!(U8Cell(0).get_usize_val(), 0);
    assert_eq!(U8Cell(255).get_usize_val(), 255);
    assert_eq!(U32Cell(70_000).get_usize_val(), 70_000);
    assert_eq!(U8Cell(9).number(), 9);
    assert_eq!(U32Cell(u32::MAX).number(), u32::MAX);
}

#[test]
fn from_number_refuses_what_a_cell_cannot_hold() {
    assert_eq!(U8Cell::from_number(255), Some(U8Cell(255)));
    assert_eq!(U8Cell::from_number(256), None);
    assert_eq!(U32Cell::from_number(256), Some(U32Cell(256)));
    assert_eq!(U32Cell::from_number(u32::MAX), Some(U32Cell(u32::MAX)));
    assert_eq!(CellMode::U8.largest(), 255);
    assert_eq!(CellMode::U32.largest(), u32::MAX);
    assert_eq!(CellMode::default(), CellMode::U32);
}

#[test]
fn narrow_cells_round_trip_through_their_character_form() {
    for v in 0..=255u8 {
        let ch = U8Cell(v).to_char().unwrap();
        assert_eq!(ch as u32, v as u32);
        assert_eq!(U8Cell::from_char(ch), Some(U8Cell(v)));
    }
    assert_eq!(U8Cell(65).to_char(), Some('A'));
    assert_eq!(U8Cell::from_char('\u{100}'), None);
    assert_eq!(U8Cell::from_char('€'), None);
}

#[test]
fn wide_cells_round_trip_through_their_character_form() {
    let mut v: u32 = 0;
    while v <= 0x11_0000 {
        match U32Cell(v).to_char() {
            Some(ch) => {
                assert_eq!(ch as u32, v);
                assert_eq!(U32Cell::from_char(ch), Some(U32Cell(v)));
            }
            None => assert!((0xD800..=0xDFFF).contains(&v) || v > 0x10_FFFF),
        }
        v += 1;
    }
    assert_eq!(U32Cell(0x20AC).to_char(), Some('€'));
    assert_eq!(U32Cell(0xD800).to_char(), None);
    assert_eq!(U32Cell(0xDFFF).to_char(), None);
    assert_eq!(U32Cell(0x11_0000).to_char(), None);
    assert_eq!(U32Cell(u32::MAX).to_char(), None);
    assert_eq!(U32Cell::from_char('\u{10FFFF}'), Some(U32Cell(0x10_FFFF)));
}

#[test]
fn narrow_reader_makes_a_cell_of_every_byte() {
    let mut reader = U8Cell::create_stdin_reader();
    assert_eq!(reader.push(0), Some(Ok(U8Cell(0))));
    assert_eq!(reader.push(b'A'), Some(Ok(U8Cell(65))));
    assert_eq!(reader.push(0xC3), Some(Ok(U8Cell(0xC3))));
    assert_eq!(reader.push(0xFF), Some(Ok(U8Cell(255))));
    let mut other = StdinU8Reader::create();
    assert_eq!(other.push(7), Some(Ok(U8Cell(7))));
}

fn feed(reader: &mut StdinCharReader, bytes: &[u8]) -> Vec<Option<Result<U32Cell, CellStdinReadError>>> {
    bytes.iter().map(|b| reader.push(*b)).collect()
}

#[test]
fn wide_reader_decodes_one_scalar_value_per_cell() {
    let mut reader = U32Cell::create_stdin_reader();
    assert_eq!(feed(&mut reader, b"A"), vec![Some(Ok(U32Cell(65)))]);
    assert_eq!(feed(&mut reader, "é".as_bytes()), vec![None, Some(Ok(U32Cell(0xE9)))]);
    assert_eq!(feed(&mut reader, "€".as_bytes()), vec![None, None, Some(Ok(U32Cell(0x20AC)))]);
    assert_eq!(
        feed(&mut reader, "😀".as_bytes()),
        vec![None, None, None, Some(Ok(U32Cell(0x1F600)))]
    );
    assert_eq!(
        feed(&mut reader, "\u{10FFFF}".as_bytes()),
        vec![None, None, None, Some(Ok(U32Cell(0x10_FFFF)))]
    );
    assert_eq!(feed(&mut reader, &[0]), vec![Some(Ok(U32Cell(0)))]);
}

#[test]
fn wide_reader_reports_malformed_input_and_starts_afresh() {
    let utf8 = Some(Err(CellStdinReadError::Utf8));
    let mut reader = StdinCharReader::create();
    // A continuation byte, and bytes that open nothing.
    assert_eq!(reader.push(0x80), utf8);
    assert_eq!(reader.push(0xC0), utf8);
    assert_eq!(reader.push(0xC1), utf8);
    assert_eq!(reader.push(0xF5), utf8);
    assert_eq!(reader.push(0xFF), utf8);
    // A second byte that cannot follow the first.
    assert_eq!(feed(&mut reader, &[0xC3, 0x41]), vec![None, utf8]);
    assert_eq!(feed(&mut reader, &[0xE0, 0x9F]), vec![None, utf8]);
    assert_eq!(feed(&mut reader, &[0xED, 0xA0]), vec![None, utf8]);
    assert_eq!(feed(&mut reader, &[0xF0, 0x8F]), vec![None, utf8]);
    assert_eq!(feed(&mut reader, &[0xF4, 0x90]), vec![None, utf8]);
    // A later byte that is no continuation.
    assert_eq!(feed(&mut reader, &[0xE2, 0x82, 0x41]), vec![None, None, utf8]);
    assert_eq!(feed(&mut reader, &[0xF0, 0x9F, 0x98, 0xC0]), vec![None, None, None, utf8]);
    // After an error the reader reads on.
    assert_eq!(feed(&mut reader, "é".as_bytes()), vec![None, Some(Ok(U32Cell(0xE9)))]);
}

#[test]
fn decode_agrees_with_the_standard_library_on_every_scalar_value() {
    let mut v: u32 = 0;
    while v <= 0x10_FFFF {
        if let Some(ch) = char::from_u32(v) {
            let mut buffer = [0u8; 4];
            let bytes = ch.encode_utf8(&mut buffer).as_bytes();
            assert_eq!(decode(bytes), Decoded::Scalar(v));
            for taken in 0..bytes.len() {
                assert_eq!(decode(&bytes[..taken]), Decoded::Incomplete);
            }
        }
        v += if v < 0x1_0000 { 1 } else { 17 };
    }
}

#[test]
fn decode_agrees_with_the_standard_library_on_short_runs() {
    for first in 0..=255u8 {
        for second in 0..=255u8 {
            let bytes = [first, second];
            let expected = match std::str::from_utf8(&bytes) {
                Ok(s) => {
                    if s.chars().count() == 1 {
                        Decoded::Scalar(s.chars().next().unwrap() as u32)
                    } else {
                        Decoded::Malformed
                    }
                }
                Err(err) => {
                    if err.valid_up_to() == 0 && err.error_len().is_none() {
                        Decoded::Incomplete
                    } else {
                        Decoded::Malformed
                    }
                }
            };
            assert_eq!(decode(&bytes), expected);
        }
    }
    assert_eq!(decode(&[]), Decoded::Incomplete);
    assert_eq!(decode(&[0x41, 0x41, 0x41, 0x41, 0x41]), Decoded::Malformed);
    assert_eq!(decode(&[0xF0, 0x9F, 0x98, 0x80, 0x80]), Decoded::Malformed);
}

#[test]
fn a_failed_stream_gives_up_the_bytes_taken_in() {
    let mut wide = StdinCharReader::create();
    assert_eq!(wide.push(0xE2), None);
    assert_eq!(wide.push(0x82), None);
    assert_eq!(wide.fail(), CellStdinReadError::Io);
    // The next byte starts a cell of its own.
    assert_eq!(wide.push(b'A'), Some(Ok(U32Cell(65))));
    let mut narrow = StdinU8Reader::create();
    assert_eq!(narrow.fail(), CellStdinReadError::Io);
    assert_eq!(narrow.push(9), Some(Ok(U8Cell(9))));
}

#[test]
fn operators_wrap_around() {
    assert_eq!(U8Cell(200) + U8Cell(100), U8Cell(44));
    assert_eq!(U8Cell(2) + U8Cell(3), U8Cell(5));
    assert_eq!(U8Cell(2) - U8Cell(3), U8Cell(255));
    assert_eq!(U8Cell(20) * U8Cell(13), U8Cell(4));
    assert_eq!(U8Cell(200) / U8Cell(7), U8Cell(28));
    assert_eq!(U32Cell(u32::MAX) + U32Cell(5), U32Cell(4));
    assert_eq!(U32Cell(0) - U32Cell(5), U32Cell(u32::MAX - 4));
    assert_eq!(U32Cell(0x8000_0000) * U32Cell(2), U32Cell(0));
    assert_eq!(U32Cell(0x8000_0001) * U32Cell(3), U32Cell(0x8000_0003));
    assert_eq!(U32Cell(100) / U32Cell(7), U32Cell(14));
    assert_eq!(wrapped(ArithOp::Add, 9, 9, 10), 7);
    assert_eq!(wrapped(ArithOp::Sub, 0, 1, 10), 10);
    assert_eq!(wrapped(ArithOp::Mul, 10, 10, 10), 1);
}

#[test]
fn narrow_cells_are_read_back_from_the_byte_they_are_written_as() {
    let mut reader = U8Cell::create_stdin_reader();
    for v in 0..=255u8 {
        let bytes = U8Cell(v).to_bytes();
        assert_eq!(bytes, vec![v]);
        assert_eq!(feed_narrow(&mut reader, &bytes), vec![Some(Ok(U8Cell(v)))]);
    }
}

fn feed_narrow(
    reader: &mut StdinU8Reader,
    bytes: &[u8],
) -> Vec<Option<Result<U8Cell, CellStdinReadError>>> {
    bytes.iter().map(|b| reader.push(*b)).collect()
}

#[test]
fn wide_cells_are_read_back_from_the_bytes_they_are_written_as() {
    let mut reader = U32Cell::create_stdin_reader();
    let mut v: u32 = 0;
    while v <= 0x11_0000 {
        let bytes = U32Cell(v).to_bytes();
        match char::from_u32(v) {
            Some(ch) => {
                let mut buffer = [0u8; 4];
                assert_eq!(bytes.as_slice(), ch.encode_utf8(&mut buffer).as_bytes());
                let read = feed(&mut reader, &bytes);
                assert_eq!(read.last(), Some(&Some(Ok(U32Cell(v)))));
                assert!(read[..read.len() - 1].iter().all(|r| r.is_none()));
            }
            None => assert!(bytes.is_empty()),
        }
        v += if v < 0x1_0000 { 1 } else { 13 };
    }
    assert_eq!(U32Cell(0x20AC).to_bytes(), vec![0xE2, 0x82, 0xAC]);
    assert_eq!(U32Cell(0x1F600).to_bytes(), vec![0xF0, 0x9F, 0x98, 0x80]);
    assert_eq!(U32Cell(0xD800).to_bytes(), Vec::<u8>::new());
    assert_eq!(U32Cell(u32::MAX).to_bytes(), Vec::<u8>::new());
    assert_eq!(encode(0x7F), vec![0x7F]);
    assert_eq!(encode(0x80), vec![0xC2, 0x80]);
    assert_eq!(encode(0x7FF), vec![0xDF, 0xBF]);
    assert_eq!(encode(0x800), vec![0xE0, 0xA0, 0x80]);
    assert_eq!(encode(0xFFFF), vec![0xEF, 0xBF, 0xBF]);
    assert_eq!(encode(0x1_0000), vec![0xF0, 0x90, 0x80, 0x80]);
    assert_eq!(encode(0x10_FFFF), vec![0xF4, 0x8F, 0xBF, 0xBF]);
    assert_eq!(encode(0x11_0000), Vec::<u8>::new());
}
