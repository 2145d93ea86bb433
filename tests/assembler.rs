use flock::opcode::OpKind;
use flock::parse::{parse_literal, parse_number};
use flock::valsp::ValSp;
use flock::{ParseErrorKind, Program};

fn chars(s: &str) -> Vec<char> {
    s.chars().collect()
}

fn labels(entries: &[(&str, u64)]) -> Vec<(Vec<char>, u64)> {
    entries.iter().map(|(n, v)| (chars(n), *v)).collect()
}

fn parse_valsp(s: &str, l: &[(&str, u64)]) -> Result<ValSp, (ParseErrorKind, String)> {
    ValSp::parse(&chars(s), &labels(l)).map_err(|e| (e.kind, e.text))
}

fn parse_err(text: &str) -> (ParseErrorKind, String, String) {
    let e = Program::parse(text).unwrap_err();
    let m = e.message();
    (e.kind, e.text, m)
}

#[test]
fn label_literal_is_count_of_instructions_before_it() {
    let text = "# header\n\nPUSH 1\n:first\n  PUSH 2   # two\n:second\nNOP $pop\n:third";
    let program = Program::parse(text).unwrap();
    assert_eq!(program.len(), 3);
    let l = [("first", 1), ("second", 2), ("third", 3)];
    assert_eq!(parse_valsp(":first", &l), Ok(ValSp::Literal(1)));
    assert_eq!(parse_valsp(":second", &l), Ok(ValSp::Literal(2)));
    assert_eq!(parse_valsp(":third", &l), Ok(ValSp::Literal(3)));
    let jumped = Program::parse("JUMP :end\nPUSH 1\nPUSH 2\n:end").unwrap();
    assert_eq!(jumped.op(0).args(), &vec![ValSp::Literal(3)]);
}

#[test]
fn unknown_label_fails() {
    assert_eq!(
        parse_valsp(":nowhere", &[]),
        Err((ParseErrorKind::UnknownLabel, "nowhere".to_string()))
    );
    let (k, t, m) = parse_err("JUMP :nowhere");
    assert_eq!((k, t.as_str(), m.as_str()), (ParseErrorKind::UnknownLabel, "nowhere", "Unknown label: nowhere"));
}

#[test]
fn duplicate_label_fails() {
    let (k, t, m) = parse_err(":a\nNOP 1\n:a\nNOP 2");
    assert_eq!(k, ParseErrorKind::DuplicateLabel);
    assert_eq!(t, "a");
    assert_eq!(m, "Duplicate label: a");
}

#[test]
fn duplicate_label_reported_before_instruction_errors() {
    let (k, _, _) = parse_err("BOGUS\n:a\n:a");
    assert_eq!(k, ParseErrorKind::DuplicateLabel);
}

#[test]
fn value_specifier_grammar() {
    assert_eq!(parse_valsp("$pop", &[]), Ok(ValSp::Pop));
    assert_eq!(parse_valsp("$pop[2]", &[]), Ok(ValSp::PopI(Box::new(ValSp::Literal(2)))));
    assert_eq!(parse_valsp("$peek", &[]), Ok(ValSp::Peek));
    assert_eq!(parse_valsp("$tid", &[]), Ok(ValSp::ThreadId));
    assert_eq!(parse_valsp("$mem[0x8]", &[]), Ok(ValSp::Memory(Box::new(ValSp::Literal(8)))));
    assert_eq!(parse_valsp("$mem[$pop]", &[]), Ok(ValSp::Memory(Box::new(ValSp::Pop))));
    assert_eq!(
        parse_valsp("$gmem[$mem[:x]]", &[("x", 4)]),
        Ok(ValSp::GlobalMemory(Box::new(ValSp::Memory(Box::new(ValSp::Literal(4))))))
    );
    assert_eq!(parse_valsp("17", &[]), Ok(ValSp::Literal(17)));
    assert_eq!(parse_valsp("0xff", &[]), Ok(ValSp::Literal(255)));
}

#[test]
fn value_specifier_errors() {
    assert_eq!(parse_valsp("$mem", &[]), Err((ParseErrorKind::MissingIndex, "$mem".to_string())));
    assert_eq!(parse_valsp("$gmem", &[]), Err((ParseErrorKind::MissingIndex, "$gmem".to_string())));
    assert_eq!(parse_valsp("$pop[1", &[]), Err((ParseErrorKind::UnclosedBracket, "[1".to_string())));
    assert_eq!(parse_valsp("$peekx", &[]), Err((ParseErrorKind::InvalidLiteral, "$peekx".to_string())));
    assert_eq!(parse_valsp("$popx", &[]), Err((ParseErrorKind::InvalidLiteral, "$popx".to_string())));
    assert_eq!(parse_valsp("$popcorn", &[]), Err((ParseErrorKind::InvalidLiteral, "$popcorn".to_string())));
    assert_eq!(parse_valsp("$foo", &[]), Err((ParseErrorKind::InvalidLiteral, "$foo".to_string())));
    assert_eq!(parse_valsp("abc", &[]), Err((ParseErrorKind::InvalidLiteral, "abc".to_string())));
    assert_eq!(parse_valsp("", &[]), Err((ParseErrorKind::InvalidLiteral, "".to_string())));
    assert_eq!(parse_valsp("-1", &[]), Err((ParseErrorKind::InvalidLiteral, "-1".to_string())));
    assert_eq!(parse_valsp("0xzz", &[]), Err((ParseErrorKind::InvalidHex, "zz".to_string())));
    let (_, _, m) = parse_err("PUSH $mem");
    assert_eq!(m, "$mem requires index");
    let (_, _, m) = parse_err("PUSH $mem[8");
    assert_eq!(m, "Expected ']' at end of: [8");
    let (_, _, m) = parse_err("PUSH abc");
    assert_eq!(m, "Could not parse as literal value: \"abc\"");
    let (_, _, m) = parse_err("PUSH 0xg");
    assert_eq!(m, "Parsing as hex: \"g\"");
}

#[test]
fn literals_read_like_the_standard_library() {
    assert_eq!(parse_number(&chars("18446744073709551615"), false), Some(u64::MAX));
    assert_eq!(parse_number(&chars("18446744073709551616"), false), None);
    assert_eq!(parse_number(&chars("+12"), false), Some(12));
    assert_eq!(parse_number(&chars("+"), false), None);
    assert_eq!(parse_number(&chars(""), false), None);
    assert_eq!(parse_number(&chars("-1"), false), None);
    assert_eq!(parse_number(&chars("ffffffffffffffff"), true), Some(u64::MAX));
    assert_eq!(parse_number(&chars("1ffffffffffffffff"), true), None);
    assert_eq!(parse_number(&chars("AbC"), true), Some(0xabc));
    assert_eq!(parse_literal(&chars("0x10")).unwrap(), 16);
    assert_eq!(parse_literal(&chars("010")).unwrap(), 10);
    assert!(parse_literal(&chars("0x")).is_err());
}

#[test]
fn command_and_arity_errors() {
    let (k, t, m) = parse_err("POP 1");
    assert_eq!((k, t.as_str(), m.as_str()), (ParseErrorKind::UnknownCommand, "POP", "Unknown command: POP"));
    let (k, _, m) = parse_err("ADD 1");
    assert_eq!((k, m.as_str()), (ParseErrorKind::TooFewArguments, "Too few arguments to ADD"));
    let (k, _, m) = parse_err("PUSH 1, 2");
    assert_eq!((k, m.as_str()), (ParseErrorKind::TooManyArguments, "Too many arguments to PUSH"));
    let (k, _, _) = parse_err("DEBUG now");
    assert_eq!(k, ParseErrorKind::TooManyArguments);
    let (k, _, _) = parse_err("PUSH");
    assert_eq!(k, ParseErrorKind::TooFewArguments);
}

#[test]
fn instructions_and_operands() {
    let p = Program::parse("JUMP_EQ $pop, $peek, 3\r\nDEBUG\n\t STORE_GLOBAL 0x8, $tid \n").unwrap();
    assert_eq!(p.len(), 3);
    assert_eq!(p.op(0).kind(), OpKind::JumpEq);
    assert_eq!(p.op(0).args(), &vec![ValSp::Pop, ValSp::Peek, ValSp::Literal(3)]);
    assert_eq!(p.op(1).kind(), OpKind::Debug);
    assert!(p.op(1).args().is_empty());
    assert_eq!(p.op(2).kind(), OpKind::StoreGlobal);
    assert_eq!(p.op(2).args(), &vec![ValSp::Literal(8), ValSp::ThreadId]);
}

#[test]
fn operands_split_only_at_comma_space() {
    let (k, t, _) = parse_err("ADD 1,2");
    assert_eq!((k, t.as_str()), (ParseErrorKind::InvalidLiteral, "1,2"));
    let (k, t, _) = parse_err("ADD 1, 2,3");
    assert_eq!((k, t.as_str()), (ParseErrorKind::InvalidLiteral, "2,3"));
}

#[test]
fn unicode_whitespace_is_trimmed() {
    let p = Program::parse("\u{3000}PUSH 1\u{a0}\n").unwrap();
    assert_eq!(p.len(), 1);
}

#[test]
fn parsing_twice_gives_equal_programs() {
    let text = "FORK :c\nJOIN $pop\nEXIT $pop\n:c\nTHREAD_FINISH $mem[0x10]";
    let a = Program::parse(text).unwrap();
    let b = Program::parse(text).unwrap();
    assert_eq!(a.len(), b.len());
    for i in 0..a.len() {
        assert_eq!(a.op(i).kind(), b.op(i).kind());
        assert_eq!(a.op(i).args(), b.op(i).args());
    }
}

#[test]
fn empty_and_comment_only_text_is_an_empty_program() {
    assert_eq!(Program::parse("").unwrap().len(), 0);
    assert_eq!(Program::parse("  # nothing\n\n#").unwrap().len(), 0);
}
