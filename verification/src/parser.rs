use vstd::prelude::*;

verus! {

use crate::opcode::Opcode;
use crate::program::Program;

/// The parser's running state: how many `[` and `{` stand open, and the
/// position (line and column) used to report errors.
#[verifier::ext_equal]
pub ghost struct ParserState {
    /// How many `[` are open and not yet closed.
    pub brackets: int,
    /// How many `{` are open and not yet closed.
    pub braces: int,
    /// The current line, counted from zero.
    pub line: int,
    /// The current column, counted from zero.
    pub col: int,
}

/// The parser state a fresh parser starts from.
pub open spec fn init_parser() -> ParserState {
    ParserState { brackets: 0, braces: 0, line: 0, col: 0 }
}

/// Why a character stream was rejected.
#[derive(Debug, Copy, Clone, PartialEq, Eq, Structural)]
pub enum ParseFault {
    /// A `]` with no `[` open.
    MismatchedBracket,
    /// A `}` with no `{` open.
    MismatchedBrace,
    /// The stream ended with a `[` still open.
    UnclosedBracket,
    /// The stream ended with a `{` still open.
    UnclosedBrace,
}

/// A rejected character stream: what was wrong, and the line and column the
/// parser stood at.
#[derive(Debug, Copy, Clone, PartialEq, Eq, Structural)]
pub struct ParseError {
    /// The line of the offending position, counted from zero.
    pub line: usize,
    /// The column of the offending position, counted from zero.
    pub col: usize,
    /// What was wrong there.
    pub fault: ParseFault,
}

impl ParseError {
    /// Gives up the payload: line, column, and what was wrong.
    pub fn into_inner(self) -> (r: (usize, usize, ParseFault))
        ensures
            r == (self.line, self.col, self.fault),
    {
        (self.line, self.col, self.fault)
    }
}

/// One character's effect on the parser: the state afterwards, and the
/// opcode it stands for (`None` for a comment character), or the fault it
/// raises. The column advances on every character, a newline resetting it
/// first; counting a `[` or `{` open happens as the opcode is emitted.
pub open spec fn parser_step(ps: ParserState, c: char) -> (ParserState, Result<
    Option<Opcode>,
    ParseFault,
>) {
    let r: (ParserState, Result<Option<Opcode>, ParseFault>) = if c == '\n' {
        (ParserState { line: ps.line + 1, col: 0, ..ps }, Ok(None))
    } else if c == '<' {
        (ps, Ok(Some(Opcode::Left)))
    } else if c == '>' {
        (ps, Ok(Some(Opcode::Right)))
    } else if c == '-' {
        (ps, Ok(Some(Opcode::Decr)))
    } else if c == '+' {
        (ps, Ok(Some(Opcode::Incr)))
    } else if c == ',' {
        (ps, Ok(Some(Opcode::Read)))
    } else if c == '.' {
        (ps, Ok(Some(Opcode::Write)))
    } else if c == '[' {
        (ParserState { brackets: ps.brackets + 1, ..ps }, Ok(Some(Opcode::While)))
    } else if c == ']' {
        if ps.brackets > 0 {
            (ParserState { brackets: ps.brackets - 1, ..ps }, Ok(Some(Opcode::Until)))
        } else {
            (ps, Err(ParseFault::MismatchedBracket))
        }
    } else if c == '{' {
        (ParserState { braces: ps.braces + 1, ..ps }, Ok(Some(Opcode::Def)))
    } else if c == '}' {
        if ps.braces > 0 {
            (ParserState { braces: ps.braces - 1, ..ps }, Ok(Some(Opcode::End)))
        } else {
            (ps, Err(ParseFault::MismatchedBrace))
        }
    } else if c == '\\' {
        (ps, Ok(Some(Opcode::Ret)))
    } else if c == '@' {
        (ps, Ok(Some(Opcode::Call)))
    } else {
        (ps, Ok(None))
    };
    (ParserState { col: r.0.col + 1, ..r.0 }, r.1)
}

/// What feeding a whole character sequence to the parser leaves behind.
#[verifier::ext_equal]
pub ghost struct ParseOutcome {
    /// The parser state after the last character consumed.
    pub st: ParserState,
    /// The opcodes emitted, in order.
    pub ops: Seq<Opcode>,
    /// The first fault, with the line and column it was raised at, if any;
    /// characters past it are not consumed.
    pub err: Option<(int, int, ParseFault)>,
}

/// Feeds the characters of `s` to the parser in order, stopping at the
/// first fault.
pub open spec fn parse_chars(ps: ParserState, s: Seq<char>) -> ParseOutcome
    decreases s.len(),
{
    if s.len() == 0 {
        ParseOutcome { st: ps, ops: Seq::empty(), err: None }
    } else {
        let stepped = parser_step(ps, s[0]);
        match stepped.1 {
            Ok(op) => {
                let rest = parse_chars(stepped.0, s.drop_first());
                let emitted: Seq<Opcode> = match op {
                    Some(o) => seq![o],
                    None => Seq::empty(),
                };
                ParseOutcome { st: rest.st, ops: emitted + rest.ops, err: rest.err }
            },
            Err(f) => ParseOutcome {
                st: stepped.0,
                ops: Seq::empty(),
                err: Some((ps.line, ps.col, f)),
            },
        }
    }
}

/// The result of a whole parse: the opcodes, unless a character raised a
/// fault or the stream ended with a bracket or brace still open.
pub open spec fn parse_full(ps: ParserState, s: Seq<char>) -> Result<Seq<Opcode>, (
    int,
    int,
    ParseFault,
)> {
    let o = parse_chars(ps, s);
    match o.err {
        Some(e) => Err(e),
        None => if o.st.brackets > 0 {
            Err((o.st.line, o.st.col, ParseFault::UnclosedBracket))
        } else if o.st.braces > 0 {
            Err((o.st.line, o.st.col, ParseFault::UnclosedBrace))
        } else {
            Ok(o.ops)
        },
    }
}

/// The streaming parser: turns characters into opcodes one at a time and
/// keeps the bracket, brace and position counters across calls.
pub struct Parser {
    brackets: usize,
    braces: usize,
    line: usize,
    col: usize,
}

impl View for Parser {
    type V = ParserState;

    closed spec fn view(&self) -> ParserState {
        ParserState {
            brackets: self.brackets as int,
            braces: self.braces as int,
            line: self.line as int,
            col: self.col as int,
        }
    }
}

impl Parser {
    /// A fresh parser: nothing open, at line zero, column zero.
    pub fn new() -> (p: Parser)
        ensures
            p@ == init_parser(),
    {
        Parser { brackets: 0, braces: 0, line: 0, col: 0 }
    }

    /// Consumes one character: the opcode it stands for (`None` for a
    /// comment character), or the fault it raises, reported at the line and
    /// column the parser stood at.
    pub fn step(&mut self, c: char) -> (r: Result<Option<Opcode>, ParseError>)
        requires
            old(self)@.brackets < usize::MAX,
            old(self)@.braces < usize::MAX,
            old(self)@.line < usize::MAX,
            old(self)@.col < usize::MAX,
        ensures
            final(self)@ == parser_step(old(self)@, c).0,
            (match r {
                Ok(op) => parser_step(old(self)@, c).1 == Ok::<Option<Opcode>, ParseFault>(op),
                Err(e) => parser_step(old(self)@, c).1 == Err::<Option<Opcode>, ParseFault>(
                    e.fault,
                ) && e.line as int == old(self)@.line && e.col as int == old(self)@.col,
            }),
    {
        let result: Result<Option<Opcode>, ParseError> = match c {
            '\n' => {
                self.line = self.line + 1;
                self.col = 0;
                Ok(None)
            },
            '<' => Ok(Some(Opcode::Left)),
            '>' => Ok(Some(Opcode::Right)),
            '-' => Ok(Some(Opcode::Decr)),
            '+' => Ok(Some(Opcode::Incr)),
            ',' => Ok(Some(Opcode::Read)),
            '.' => Ok(Some(Opcode::Write)),
            '[' => {
                self.brackets = self.brackets + 1;
                Ok(Some(Opcode::While))
            },
            ']' => {
                if self.brackets > 0 {
                    self.brackets = self.brackets - 1;
                    Ok(Some(Opcode::Until))
                } else {
                    Err(
                        ParseError {
                            line: self.line,
                            col: self.col,
                            fault: ParseFault::MismatchedBracket,
                        },
                    )
                }
            },
            '{' => {
                self.braces = self.braces + 1;
                Ok(Some(Opcode::Def))
            },
            '}' => {
                if self.braces > 0 {
                    self.braces = self.braces - 1;
                    Ok(Some(Opcode::End))
                } else {
                    Err(
                        ParseError {
                            line: self.line,
                            col: self.col,
                            fault: ParseFault::MismatchedBrace,
                        },
                    )
                }
            },
            '\\' => Ok(Some(Opcode::Ret)),
            '@' => Ok(Some(Opcode::Call)),
            _ => Ok(None),
        };
        self.col = self.col + 1;
        result
    }

    /// Consumes a whole character stream: the program it spells, or the
    /// first fault — a mismatched closer at its own position, or a bracket
    /// or brace the stream left open, at the position the stream ended.
    /// The counters keep whatever the consumed characters did to them.
    pub fn parse(&mut self, stream: &Vec<char>) -> (r: Result<Program, ParseError>)
        requires
            old(self)@.brackets + stream@.len() <= usize::MAX,
            old(self)@.braces + stream@.len() <= usize::MAX,
            old(self)@.line + stream@.len() <= usize::MAX,
            old(self)@.col + stream@.len() <= usize::MAX,
        ensures
            final(self)@ == parse_chars(old(self)@, stream@).st,
            (match r {
                Ok(p) => parse_full(old(self)@, stream@) == Ok::<Seq<Opcode>, (
                    int,
                    int,
                    ParseFault,
                )>(p@),
                Err(e) => parse_full(old(self)@, stream@) == Err::<Seq<Opcode>, (
                    int,
                    int,
                    ParseFault,
                )>((e.line as int, e.col as int, e.fault)),
            }),
    {
        let mut program = Program::new();
        let len = stream.len();
        let mut i: usize = 0;
        proof {
            assert(stream@.skip(0) =~= stream@);
            assert(program@ + parse_chars(self@, stream@).ops =~= parse_chars(self@, stream@).ops);
        }
        while i < len
            invariant
                len == stream@.len(),
                0 <= i <= len,
                self@.brackets + (len - i) <= usize::MAX,
                self@.braces + (len - i) <= usize::MAX,
                self@.line + (len - i) <= usize::MAX,
                self@.col + (len - i) <= usize::MAX,
                parse_chars(old(self)@, stream@).st == parse_chars(self@, stream@.skip(i as int)).st,
                parse_chars(old(self)@, stream@).err == parse_chars(
                    self@,
                    stream@.skip(i as int),
                ).err,
                parse_chars(old(self)@, stream@).ops == program@ + parse_chars(
                    self@,
                    stream@.skip(i as int),
                ).ops,
            decreases len - i,
        {
            let ghost pre = self@;
            let ghost suffix = stream@.skip(i as int);
            proof {
                assert(suffix[0] == stream@[i as int]);
                assert(suffix.drop_first() =~= stream@.skip(i as int + 1));
            }
            let c = stream[i];
            match self.step(c) {
                Ok(Some(opcode)) => {
                    program.push(opcode);
                    proof {
                        assert(parse_chars(pre, suffix).ops =~= seq![opcode] + parse_chars(
                            self@,
                            stream@.skip(i as int + 1),
                        ).ops);
                        assert(parse_chars(old(self)@, stream@).ops =~= program@ + parse_chars(
                            self@,
                            stream@.skip(i as int + 1),
                        ).ops);
                    }
                },
                Ok(None) => {
                    proof {
                        assert(parse_chars(pre, suffix).ops =~= parse_chars(
                            self@,
                            stream@.skip(i as int + 1),
                        ).ops);
                    }
                },
                Err(error) => {
                    return Err(error);
                },
            }
            i = i + 1;
        }
        proof {
            assert(stream@.skip(len as int) =~= Seq::<char>::empty());
        }
        if self.brackets > 0 {
            return Err(
                ParseError { line: self.line, col: self.col, fault: ParseFault::UnclosedBracket },
            );
        }
        if self.braces > 0 {
            return Err(
                ParseError { line: self.line, col: self.col, fault: ParseFault::UnclosedBrace },
            );
        }
        Ok(program)
    }
}

/// Parses one whole character stream with a fresh parser.
pub fn parse(stream: &Vec<char>) -> (r: Result<Program, ParseError>)
    ensures
        (match r {
            Ok(p) => parse_full(init_parser(), stream@) == Ok::<Seq<Opcode>, (
                int,
                int,
                ParseFault,
            )>(p@),
            Err(e) => parse_full(init_parser(), stream@) == Err::<Seq<Opcode>, (
                int,
                int,
                ParseFault,
            )>((e.line as int, e.col as int, e.fault)),
        }),
{
    let mut parser = Parser::new();
    // The stream lives in a vector, so its length fits a usize and a fresh
    // parser's counters cannot run over while consuming it.
    let _stream_len = stream.len();
    parser.parse(stream)
}

} // verus!
