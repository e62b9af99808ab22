use nommy::Buf;
use nommy::Buffer;
use nommy::Parse;
use nommy::parse;
use nommy::parse_next;
use nommy::text::AnyOf;
use nommy::text::LineEnding;
use nommy::text::OneOf;
use nommy::text::Space;
use nommy::text::Tag;
use nommy::vec::VecArgs;

fn chars(s: &str) -> Vec<char> {
    s.chars().collect()
}

#[test]
fn tag_test_parse_matches() {
    let mut input = Buf::new(chars("(){}[]<>"));
    parse_next::<Tag, char>(&mut input, &chars("(")).unwrap();
    parse_next::<Tag, char>(&mut input, &chars(")")).unwrap();
    parse_next::<Tag, char>(&mut input, &chars("{")).unwrap();
    parse_next::<Tag, char>(&mut input, &chars("}")).unwrap();
    parse_next::<Tag, char>(&mut input, &chars("[")).unwrap();
    parse_next::<Tag, char>(&mut input, &chars("]")).unwrap();
    parse_next::<Tag, char>(&mut input, &chars("<")).unwrap();
    parse_next::<Tag, char>(&mut input, &chars(">")).unwrap();
    assert!(input.next().is_none())
}

#[test]
fn test_peek_matches() {
    let mut input = Buf::new(chars("(){}[]<>"));
    let mut cursor = input.cursor();
    assert!(Tag::peek(&mut cursor, &mut input, &chars("(")));
    assert!(Tag::peek(&mut cursor, &mut input, &chars(")")));
    assert!(Tag::peek(&mut cursor, &mut input, &chars("{")));
    assert!(Tag::peek(&mut cursor, &mut input, &chars("}")));
    assert!(Tag::peek(&mut cursor, &mut input, &chars("[")));
    assert!(Tag::peek(&mut cursor, &mut input, &chars("]")));
    assert!(Tag::peek(&mut cursor, &mut input, &chars("<")));
    assert!(Tag::peek(&mut cursor, &mut input, &chars(">")));
    assert!(cursor.next(&mut input).is_none())
}

#[test]
fn tag_test_parse_errors() {
    let res: Result<Tag, _> = parse(chars("1"), &chars("("));
    assert_eq!(res.unwrap_err().message(), "failed to parse tag \"(\", found \"1\"");

    let res: Result<Tag, _> = parse(chars("1"), &chars(")"));
    assert_eq!(res.unwrap_err().message(), "failed to parse tag \")\", found \"1\"");
}

#[test]
fn tag_hits_end_of_input() {
    let res: Result<Tag, _> = parse(chars("st"), &chars("struct"));
    assert_eq!(res.unwrap_err().message(), "failed to parse tag \"struct\", found \"st\"");
}

#[test]
fn parse_spaces() {
    let mut input = Buf::new(chars(" \t \t   \t\t  \t."));
    let output: Vec<Space> = parse_next(&mut input, &VecArgs::default()).unwrap();
    assert_eq!(output.len(), 12);
    assert_eq!(input.next(), Some('.'));
}

#[test]
fn peek_spaces() {
    let mut input = Buf::new(chars(" \t \t   \t\t  \t."));
    let mut cursor = input.cursor();
    assert!(Vec::<Space>::peek(&mut cursor, &mut input, &VecArgs::default()));
    assert_eq!(cursor.next(&mut input), Some('.'));
}

#[test]
fn parse_newline() {
    let mut input = Buf::new(chars("\n.\r\n."));

    parse_next::<LineEnding, char>(&mut input, &()).unwrap();
    assert_eq!(input.next(), Some('.'));
    parse_next::<LineEnding, char>(&mut input, &()).unwrap();
    assert_eq!(input.next(), Some('.'));
}

#[test]
fn line_ending_rejects_other_input() {
    let res: Result<LineEnding, _> = parse(chars("x"), &());
    assert_eq!(res.unwrap_err().message(), "could not parse line ending");
}

#[test]
fn space_rejects_other_input() {
    let res: Result<Space, _> = parse(chars("x"), &());
    assert_eq!(res.unwrap_err().message(), "could not parse space");
}

#[test]
fn any_of_any_of_peek() {
    let mut buffer = Buf::new(chars("1024$"));
    let mut cursor = buffer.cursor();
    assert!(AnyOf::peek(&mut cursor, &mut buffer, &chars("0123456789")));
    assert_eq!(cursor.next(&mut buffer), Some('$'));
}

#[test]
fn many_any_of_peek() {
    let mut buffer = Buf::new(chars("1024$"));
    let mut cursor = buffer.cursor();
    assert!(AnyOf::peek(&mut cursor, &mut buffer, &chars("0123456789")));
    assert_eq!(cursor.next(&mut buffer), Some('$'));
}

#[test]
fn whitespace_rejects_other_input() {
    let res: Result<nommy::text::WhiteSpace, _> = parse(chars("x"), &());
    assert_eq!(res.unwrap_err().message(), "could not parse whitespace");
}

#[test]
fn any_in_range_collects_the_run() {
    let mut buffer = Buf::new(chars("hello World"));
    let res: nommy::text::AnyInRange = parse_next(&mut buffer, &('a', 'z')).unwrap();
    let s: String = nommy::Process::process(res);
    assert_eq!(s, "hello");
    assert_eq!(buffer.next(), Some(' '));
}

#[test]
fn whitespace_takes_a_carriage_return_pair() {
    let mut input = Buf::new(chars("\r\n."));
    parse_next::<nommy::text::WhiteSpace, char>(&mut input, &()).unwrap();
    assert_eq!(input.next(), Some('.'));
}

#[test]
fn one_of_reports_the_offending_character() {
    let res: Result<OneOf, _> = parse(chars("x"), &chars("-_"));
    assert_eq!(res.unwrap_err().message(), "error parsing one of \"-_\", found 'x'");

    let res: Result<OneOf, _> = parse(chars(""), &chars("-_"));
    assert_eq!(res.unwrap_err().message(), "error parsing one of \"-_\", reached EOF");
}
