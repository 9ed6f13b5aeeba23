use brainfart::opcode::Opcode;
use brainfart::parser::{parse, ParseFault, Parser};

fn chars_of(source: &str) -> Vec<char> {
    source.chars().collect()
}

#[test]
fn every_operator_character_spells_its_opcode() {
    let program = parse(&chars_of("<>-+,.[]{}\\@")).expect("the source is balanced");
    assert_eq!(
        program.into_inner(),
        vec![
            Opcode::Left,
            Opcode::Right,
            Opcode::Decr,
            Opcode::Incr,
            Opcode::Read,
            Opcode::Write,
            Opcode::While,
            Opcode::Until,
            Opcode::Def,
            Opcode::End,
            Opcode::Ret,
            Opcode::Call,
        ]
    );
}

#[test]
fn other_characters_are_comments() {
    let program = parse(&chars_of("say + one\nand + one")).expect("the source is balanced");
    assert_eq!(program.into_inner(), vec![Opcode::Incr, Opcode::Incr]);
}

#[test]
fn the_empty_stream_is_the_empty_program() {
    let program = parse(&chars_of("")).expect("nothing is balanced");
    assert_eq!(program.into_inner(), Vec::<Opcode>::new());
}

#[test]
fn a_stray_closing_bracket_is_rejected_where_it_stands() {
    let error = parse(&chars_of("+]")).expect_err("nothing opened the bracket");
    assert_eq!(error.into_inner(), (0, 1, ParseFault::MismatchedBracket));
}

#[test]
fn a_stray_closing_brace_is_rejected_where_it_stands() {
    let error = parse(&chars_of("}")).expect_err("nothing opened the brace");
    assert_eq!(error.into_inner(), (0, 0, ParseFault::MismatchedBrace));
}

#[test]
fn an_unclosed_bracket_is_rejected_at_the_end() {
    let error = parse(&chars_of("[+")).expect_err("the bracket stays open");
    assert_eq!(error.into_inner(), (0, 2, ParseFault::UnclosedBracket));
}

#[test]
fn an_unclosed_brace_is_rejected_at_the_end() {
    let error = parse(&chars_of("{")).expect_err("the brace stays open");
    assert_eq!(error.into_inner(), (0, 1, ParseFault::UnclosedBrace));
}

#[test]
fn errors_carry_the_line_they_stand_on() {
    let error = parse(&chars_of("+++\n--]")).expect_err("nothing opened the bracket");
    assert_eq!(error.line, 1);
    assert_eq!(error.col, 3);
    assert_eq!(error.fault, ParseFault::MismatchedBracket);
}

#[test]
fn nested_brackets_balance_each_other() {
    let program = parse(&chars_of("[[]][]")).expect("the source is balanced");
    assert_eq!(
        program.into_inner(),
        vec![
            Opcode::While,
            Opcode::While,
            Opcode::Until,
            Opcode::Until,
            Opcode::While,
            Opcode::Until,
        ]
    );
}

#[test]
fn a_parser_keeps_its_counters_across_steps() {
    let mut parser = Parser::new();
    assert_eq!(parser.step('['), Ok(Some(Opcode::While)));
    assert_eq!(parser.step('x'), Ok(None));
    assert_eq!(parser.step(']'), Ok(Some(Opcode::Until)));
    // The bracket count went back to zero, so a further `]` is an error.
    let error = parser.step(']').expect_err("nothing opened the bracket");
    assert_eq!(error.col, 3);
    assert_eq!(error.fault, ParseFault::MismatchedBracket);
}

#[test]
fn a_parser_keeps_open_brackets_across_parse_calls() {
    let mut parser = Parser::new();
    let error = parser.parse(&chars_of("[")).expect_err("the bracket stays open");
    assert_eq!(error.fault, ParseFault::UnclosedBracket);
    // The same parser still sees the bracket as open: the closer matches.
    let program = parser.parse(&chars_of("]")).expect("the bracket now closes");
    assert_eq!(program.into_inner(), vec![Opcode::Until]);
}
