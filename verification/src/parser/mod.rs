//! Isolang script parser.

use crate::runner::ins::{BadInvertError, Ins, InsMod, InsModKind};
use crate::world::{Adj, Dir};
use vstd::prelude::*;
use vstd::std_specs::convert::FromSpecImpl;

verus! {

/// What the parser makes of a character that opens no instruction.
#[derive(PartialEq, Eq, Structural, Clone, Copy, Debug)]
pub enum ParseMode {
    /// Such a character is an error. The diagnostic instruction `@` is
    /// part of the language.
    Strict,
    /// Such a character is passed over, `@` among them.
    Lenient,
}

/// An error raised while parsing an Isolang script.
#[derive(PartialEq, Eq, Structural, Clone, Copy, Debug)]
pub enum ParseError {
    /// The end of the file was found, but not all required arguments were provided.
    BadEOF,
    /// An unexpected character was found.
    BadChar(char),
    /// An instruction that can not be inverted was inverted.
    BadInvert,
}

impl From<BadInvertError> for ParseError {
    fn from(err: BadInvertError) -> (res: ParseError) {
        ParseError::BadInvert
    }
}

impl FromSpecImpl<BadInvertError> for ParseError {
    open spec fn obeys_from_spec() -> bool {
        true
    }

    open spec fn from_spec(err: BadInvertError) -> ParseError {
        ParseError::BadInvert
    }
}

/// The character that a byte of a script stands for.
pub open spec fn char_of_byte(byte: u8) -> char {
    byte as char
}

/// Whether a character separates instructions.
pub open spec fn is_blank(ch: char) -> bool {
    ch == ' ' || ch == '\n' || ch == '\t' || ch == '\r'
}

/// Whether a character opens an instruction that takes an adjacency
/// pair.
pub open spec fn takes_adj(ch: char) -> bool {
    ch == '+' || ch == '*' || ch == '~' || ch == '>' || ch == ';'
}

/// Whether a character opens an instruction.
pub open spec fn opens(ch: char, mode: ParseMode) -> bool {
    takes_adj(ch) || ch == ':' || (ch == '@' && mode == ParseMode::Strict)
}

/// Whether the parser passes over a character between instructions.
pub open spec fn passed_over(ch: char, mode: ParseMode) -> bool {
    is_blank(ch) || (mode == ParseMode::Lenient && !opens(ch, mode))
}

/// The instruction that a character opens, with the adjacency pair that
/// follows where it takes one. Moves and jumps go to the right.
pub open spec fn base_ins(ch: char, adj: Adj) -> Ins
    recommends
        opens(ch, ParseMode::Strict),
{
    if ch == '+' {
        Ins::Add { adj }
    } else if ch == '*' {
        Ins::Mul { adj }
    } else if ch == '~' {
        Ins::Swap { adj }
    } else if ch == '>' {
        Ins::MoveHeadOne { adj, dir: Dir::R }
    } else if ch == ';' {
        Ins::MoveHeadDynamic { adj, dir: Dir::R }
    } else if ch == ':' {
        Ins::JumpThruCode { dir: Dir::R }
    } else {
        Ins::DumpWorld
    }
}

/// The first position from `pos` on at which the parser does not pass
/// over the character, or the end of the script.
pub open spec fn skip_end(src: Seq<u8>, pos: int, mode: ParseMode) -> int
    decreases src.len() - pos,
{
    if 0 <= pos < src.len() && passed_over(char_of_byte(src[pos]), mode) {
        skip_end(src, pos + 1, mode)
    } else {
        pos
    }
}

/// The modifier that stands at a position, with the position after it.
/// `#` skips at random; `?` makes conditional and `!` inverts, at
/// random where a `#` follows.
pub open spec fn mod_at(src: Seq<u8>, pos: int) -> Option<(InsMod, int)> {
    if 0 <= pos < src.len() {
        let ch = char_of_byte(src[pos]);
        let random_maybe = pos + 1 < src.len() && char_of_byte(src[pos + 1]) == '#';
        let end = if random_maybe {
            pos + 2
        } else {
            pos + 1
        };
        if ch == '#' {
            Some((InsMod { kind: InsModKind::Skip, random_maybe: true }, pos + 1))
        } else if ch == '?' {
            Some((InsMod { kind: InsModKind::IfNotZeroCond, random_maybe }, end))
        } else if ch == '!' {
            Some((InsMod { kind: InsModKind::Invert, random_maybe }, end))
        } else {
            None
        }
    } else {
        None
    }
}

/// What the chain of modifiers that starts at a position makes of an
/// instruction, with the position after the chain. The chain is as long
/// as it can be, and each modifier applies to the result of the one
/// before.
pub open spec fn modified_at(ins: Ins, src: Seq<u8>, pos: int) -> Result<(Ins, int), ParseError>
    decreases src.len() - pos,
{
    match mod_at(src, pos) {
        Some((modifier, end)) => match ins.modified(modifier) {
            Some(ins) => modified_at(ins, src, end),
            None => Err(ParseError::BadInvert),
        },
        None => Ok((ins, pos)),
    }
}

/// The instruction that starts at or after a position, with the
/// position after it; `None` where only characters that the parser
/// passes over are left.
pub open spec fn ins_at(src: Seq<u8>, pos: int, mode: ParseMode) -> Result<
    Option<(Ins, int)>,
    ParseError,
> {
    let start = skip_end(src, pos, mode);
    if !(0 <= start < src.len()) {
        Ok(None)
    } else {
        let ch = char_of_byte(src[start]);
        if !opens(ch, mode) {
            Err(ParseError::BadChar(ch))
        } else if !takes_adj(ch) {
            match modified_at(base_ins(ch, Adj::LR), src, start + 1) {
                Ok(found) => Ok(Some(found)),
                Err(err) => Err(err),
            }
        } else if start + 1 >= src.len() {
            Err(ParseError::BadEOF)
        } else {
            let arg = char_of_byte(src[start + 1]);
            match Adj::of_char(arg) {
                Some(adj) => match modified_at(base_ins(ch, adj), src, start + 2) {
                    Ok(found) => Ok(Some(found)),
                    Err(err) => Err(err),
                },
                None => Err(ParseError::BadChar(arg)),
            }
        }
    }
}

/// The instructions of a script from a position on, or the first error.
///
/// An instruction ends after the position at which it is looked for and
/// within the script ([`lemma_ins_at`]), so that the instructions after
/// it are always looked for further on; the test for it is there to end
/// the recursion.
pub open spec fn script_at(src: Seq<u8>, pos: int, mode: ParseMode) -> Result<Seq<Ins>, ParseError>
    decreases src.len() - pos,
{
    match ins_at(src, pos, mode) {
        Ok(Some((ins, end))) => if pos < end <= src.len() {
            match script_at(src, end, mode) {
                Ok(rest) => Ok(seq![ins] + rest),
                Err(err) => Err(err),
            }
        } else {
            Ok(seq![ins])
        },
        Ok(None) => Ok(Seq::empty()),
        Err(err) => Err(err),
    }
}

/// The instructions of a whole script, or the first error.
pub open spec fn script_of(src: Seq<u8>, mode: ParseMode) -> Result<Seq<Ins>, ParseError> {
    script_at(src, 0, mode)
}

/// What has been parsed so far, followed by what is still to come.
pub open spec fn followed_by(done: Seq<Ins>, rest: Result<Seq<Ins>, ParseError>) -> Result<
    Seq<Ins>,
    ParseError,
> {
    match rest {
        Ok(rest) => Ok(done + rest),
        Err(err) => Err(err),
    }
}

/// The parser passes over nothing but characters that it passes over,
/// and stops within the script.
pub proof fn lemma_skip_end(src: Seq<u8>, pos: int, mode: ParseMode)
    requires
        0 <= pos <= src.len(),
    ensures
        pos <= skip_end(src, pos, mode) <= src.len(),
        skip_end(src, pos, mode) < src.len() ==> !passed_over(
            char_of_byte(src[skip_end(src, pos, mode)]),
            mode,
        ),
        forall|i: int|
            pos <= i < skip_end(src, pos, mode) ==> passed_over(
                char_of_byte(#[trigger] src[i]),
                mode,
            ),
    decreases src.len() - pos,
{
    if pos < src.len() && passed_over(char_of_byte(src[pos]), mode) {
        lemma_skip_end(src, pos + 1, mode);
    }
}

/// A chain of modifiers ends within the script, at or after its start,
/// and it is as long as it can be: no modifier stands where it ends.
pub proof fn lemma_modified_at(ins: Ins, src: Seq<u8>, pos: int)
    requires
        0 <= pos <= src.len(),
    ensures
        modified_at(ins, src, pos) is Ok ==> pos <= modified_at(ins, src, pos).unwrap().1
            <= src.len(),
        modified_at(ins, src, pos) is Ok ==> mod_at(src, modified_at(ins, src, pos).unwrap().1)
            is None,
    decreases src.len() - pos,
{
    match mod_at(src, pos) {
        Some((modifier, end)) => match ins.modified(modifier) {
            Some(ins) => lemma_modified_at(ins, src, end),
            None => {},
        },
        None => {},
    }
}

/// An instruction takes at least one character and ends within the
/// script, where no modifier stands.
pub proof fn lemma_ins_at(src: Seq<u8>, pos: int, mode: ParseMode)
    requires
        0 <= pos <= src.len(),
    ensures
        ins_at(src, pos, mode) matches Ok(Some((ins, end))) ==> pos < end <= src.len() && mod_at(
            src,
            end,
        ) is None,
{
    lemma_skip_end(src, pos, mode);
    let start = skip_end(src, pos, mode);
    if start < src.len() {
        let ch = char_of_byte(src[start]);
        if opens(ch, mode) {
            if !takes_adj(ch) {
                lemma_modified_at(base_ins(ch, Adj::LR), src, start + 1);
            } else if start + 1 < src.len() {
                match Adj::of_char(char_of_byte(src[start + 1])) {
                    Some(adj) => lemma_modified_at(base_ins(ch, adj), src, start + 2),
                    None => {},
                }
            }
        }
    }
}

/// Isolang script parser: a cursor into the bytes of a script.
pub struct ScriptParser<'a> {
    /// The bytes to parse.
    src: &'a [u8],
    /// The number of bytes that have been read.
    pos: usize,
    /// What to make of a character that opens no instruction.
    mode: ParseMode,
}

impl<'a> ScriptParser<'a> {
    /// The bytes of the script.
    pub closed spec fn source(&self) -> Seq<u8> {
        self.src@
    }

    /// The number of bytes that have been read.
    pub closed spec fn position(&self) -> int {
        self.pos as int
    }

    /// What the parser makes of a character that opens no instruction.
    pub closed spec fn mode(&self) -> ParseMode {
        self.mode
    }

    /// Whether the cursor stands within the script or at its end.
    pub open spec fn wf(&self) -> bool {
        0 <= self.position() <= self.source().len()
    }

    /// Whether two parsers read the same script in the same mode.
    pub open spec fn same_script(&self, other: &Self) -> bool {
        self.source() == other.source() && self.mode() == other.mode()
    }

    /// A parser at the start of a script.
    pub fn new(src: &'a [u8], mode: ParseMode) -> (res: Self)
        ensures
            res.wf(),
            res.source() == src@,
            res.position() == 0,
            res.mode() == mode,
    {
        ScriptParser { src, pos: 0, mode }
    }

    /// Parse a script into a [`Vec`] of instructions.
    ///
    /// ### Returns
    /// Returns:
    /// - `Ok(_)` if the script was successfully parsed.
    /// - `Err(_)` with the first error otherwise, and no instruction.
    pub fn parse(src: &'a [u8], mode: ParseMode) -> (res: Result<Vec<Ins>, ParseError>)
        ensures
            match script_of(src@, mode) {
                Ok(script) => res is Ok && res.unwrap()@ == script,
                Err(err) => res == Err::<Vec<Ins>, ParseError>(err),
            },
    {
        let mut parser = ScriptParser::new(src, mode);
        let mut script: Vec<Ins> = Vec::new();
        assert(seq![] + script_at(src@, 0, mode).unwrap() =~= script_at(src@, 0, mode).unwrap());
        loop
            invariant
                parser.wf(),
                parser.source() == src@,
                parser.mode() == mode,
                script_of(src@, mode) == followed_by(
                    script@,
                    script_at(src@, parser.position(), mode),
                ),
            decreases src@.len() - parser.position(),
        {
            let ghost before = parser.position();
            let ghost done = script@;
            proof {
                lemma_ins_at(src@, before, mode);
            }
            match parser.parse_ins() {
                Ok(Some(ins)) => {
                    script.push(ins);
                    proof {
                        let rest = script_at(src@, parser.position(), mode);
                        if rest is Ok {
                            assert(done + (seq![ins] + rest.unwrap()) =~= done.push(ins)
                                + rest.unwrap());
                        }
                    }
                },
                Ok(None) => {
                    assert(script@ + Seq::<Ins>::empty() =~= script@);
                    return Ok(script);
                },
                Err(err) => {
                    return Err(err);
                },
            }
        }
    }

    /// Gets the next unread character, and marks it as read.
    ///
    /// # Returns
    /// Returns
    /// - `Some(_)` if a character was found.
    /// - `None` if the end of the file has been reached.
    pub fn next_char(&mut self) -> (res: Option<char>)
        requires
            old(self).wf(),
        ensures
            final(self).wf(),
            final(self).same_script(old(self)),
            match res {
                Some(ch) => old(self).position() < old(self).source().len() && ch == char_of_byte(
                    old(self).source()[old(self).position()],
                ) && final(self).position() == old(self).position() + 1,
                None => old(self).position() == old(self).source().len() && final(self).position()
                    == old(self).position(),
            },
    {
        if self.pos < self.src.len() {
            let byte = self.src[self.pos];
            self.pos = self.pos + 1;
            Some(byte as char)
        } else {
            None
        }
    }

    /// Gets the next unread character without marking it as read.
    ///
    /// # Returns
    /// Returns
    /// - `Some(_)` if a character was found.
    /// - `None` if the end of the file has been reached.
    pub fn peek_char(&self) -> (res: Option<char>)
        requires
            self.wf(),
        ensures
            match res {
                Some(ch) => self.position() < self.source().len() && ch == char_of_byte(
                    self.source()[self.position()],
                ),
                None => self.position() == self.source().len(),
            },
    {
        if self.pos < self.src.len() {
            Some(self.src[self.pos] as char)
        } else {
            None
        }
    }

    /// Marks the next character as read, if there is one.
    pub fn skip_char(&mut self)
        requires
            old(self).wf(),
        ensures
            final(self).wf(),
            final(self).same_script(old(self)),
            final(self).position() == if old(self).position() < old(self).source().len() {
                old(self).position() + 1
            } else {
                old(self).position()
            },
    {
        let _ = self.next_char();
    }

    /// Parses a single instruction, including its arguments and modifiers.
    ///
    /// # Returns
    /// Returns
    /// - `Ok(Some(_))` if an instruction was successfully parsed.
    /// - `Ok(None)` if there is no instruction.
    /// - `Err(_)` if the script is at fault.
    pub fn parse_ins(&mut self) -> (res: Result<Option<Ins>, ParseError>)
        requires
            old(self).wf(),
        ensures
            final(self).wf(),
            final(self).same_script(old(self)),
            match ins_at(old(self).source(), old(self).position(), old(self).mode()) {
                Ok(Some((ins, end))) => res == Ok::<Option<Ins>, ParseError>(Some(ins))
                    && final(self).position() == end,
                Ok(None) => res == Ok::<Option<Ins>, ParseError>(None) && final(self).position()
                    == final(self).source().len(),
                Err(err) => res == Err::<Option<Ins>, ParseError>(err),
            },
            old(self).position() <= final(self).position(),
    {
        let ghost src = self.source();
        let ghost start = self.position();
        let ghost mode = self.mode();
        loop
            invariant
                self.wf(),
                self.source() == src,
                self.mode() == mode,
                src == old(self).source(),
                mode == old(self).mode(),
                start == old(self).position(),
                start <= self.position(),
                skip_end(src, start, mode) == skip_end(src, self.position(), mode),
            decreases src.len() - self.position(),
        {
            let ch = match self.next_char() {
                Some(ch) => ch,
                None => {
                    return Ok(None);
                },
            };
            let ins = match ch {
                '+' => Ins::Add { adj: self.parse_adj()? },
                '*' => Ins::Mul { adj: self.parse_adj()? },
                '~' => Ins::Swap { adj: self.parse_adj()? },
                '>' => Ins::MoveHeadOne { adj: self.parse_adj()?, dir: Dir::R },
                ';' => Ins::MoveHeadDynamic { adj: self.parse_adj()?, dir: Dir::R },
                ':' => Ins::JumpThruCode { dir: Dir::R },
                ' ' | '\n' | '\t' | '\r' => {
                    continue ;
                },
                _ => {
                    match self.mode {
                        ParseMode::Strict => {
                            if ch == '@' {
                                Ins::DumpWorld
                            } else {
                                return Err(ParseError::BadChar(ch));
                            }
                        },
                        ParseMode::Lenient => {
                            continue ;
                        },
                    }
                },
            };
            return self.parse_ins_mods(ins);
        }
    }

    /// Parses a single adj (axis) character.
    ///
    /// ### Returns
    /// Returns:
    /// - `Ok(_)` if an adj was successfully parsed.
    /// - `Err(_)` if the script ends or another character stands there.
    pub fn parse_adj(&mut self) -> (res: Result<Adj, ParseError>)
        requires
            old(self).wf(),
        ensures
            final(self).wf(),
            final(self).same_script(old(self)),
            res == if old(self).position() >= old(self).source().len() {
                Err::<Adj, ParseError>(ParseError::BadEOF)
            } else {
                match Adj::of_char(char_of_byte(old(self).source()[old(self).position()])) {
                    Some(adj) => Ok::<Adj, ParseError>(adj),
                    None => Err::<Adj, ParseError>(
                        ParseError::BadChar(
                            char_of_byte(old(self).source()[old(self).position()]),
                        ),
                    ),
                }
            },
            final(self).position() == if old(self).position() < old(self).source().len() {
                old(self).position() + 1
            } else {
                old(self).position()
            },
    {
        let ch = match self.next_char() {
            Some(ch) => ch,
            None => {
                return Err(ParseError::BadEOF);
            },
        };
        match Adj::try_from(ch) {
            Ok(adj) => Ok(adj),
            Err(_) => Err(ParseError::BadChar(ch)),
        }
    }

    /// Parses the modifiers that follow an instruction, and applies them
    /// to it one after the other.
    pub fn parse_ins_mods(&mut self, ins: Ins) -> (res: Result<Option<Ins>, ParseError>)
        requires
            old(self).wf(),
        ensures
            final(self).wf(),
            final(self).same_script(old(self)),
            match modified_at(ins, old(self).source(), old(self).position()) {
                Ok((ins, end)) => res == Ok::<Option<Ins>, ParseError>(Some(ins))
                    && final(self).position() == end,
                Err(err) => res == Err::<Option<Ins>, ParseError>(err),
            },
            old(self).position() <= final(self).position(),
    {
        let ghost src = self.source();
        let ghost start = self.position();
        let mut cur = ins;
        loop
            invariant
                self.wf(),
                self.source() == src,
                self.mode() == old(self).mode(),
                src == old(self).source(),
                start == old(self).position(),
                start <= self.position(),
                modified_at(ins, src, start) == modified_at(cur, src, self.position()),
            decreases src.len() - self.position(),
        {
            match self.parse_ins_mod() {
                Some(ins_mod) => {
                    cur = match cur.modify(ins_mod) {
                        Ok(modified) => modified,
                        Err(err) => {
                            return Err(ParseError::from(err));
                        },
                    };
                },
                None => {
                    return Ok(Some(cur));
                },
            }
        }
    }

    /// Parses a single instruction modifier.
    ///
    /// ### Returns
    /// Returns:
    /// - `Some(_)` if an instruction modifier was successfully parsed.
    /// - `None` if no instruction modifier stands there; nothing is
    ///   read then.
    pub fn parse_ins_mod(&mut self) -> (res: Option<InsMod>)
        requires
            old(self).wf(),
        ensures
            final(self).wf(),
            final(self).same_script(old(self)),
            match mod_at(old(self).source(), old(self).position()) {
                Some((modifier, end)) => res == Some(modifier) && final(self).position() == end,
                None => res is None && final(self).position() == old(self).position(),
            },
    {
        let ch = match self.peek_char() {
            Some(ch) => ch,
            None => {
                return None;
            },
        };
        if ch == '#' {
            self.skip_char();
            Some(InsMod { kind: InsModKind::Skip, random_maybe: true })
        } else {
            let kind = match ch {
                '?' => InsModKind::IfNotZeroCond,
                '!' => InsModKind::Invert,
                _ => {
                    return None;
                },
            };
            self.skip_char();
            let mut random_maybe = false;
            if let Some('#') = self.peek_char() {
                random_maybe = true;
                self.skip_char();
            }
            Some(InsMod { kind, random_maybe })
        }
    }
}

} // verus!
