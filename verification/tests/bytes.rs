use nommy::Buf;
use nommy::Buffer;
use nommy::Process;
use nommy::parse;
use nommy::parse_next;
use nommy::bytes::AnyOf1;
use nommy::bytes::OneOf;
use nommy::bytes::Tag;

fn bytes(s: &str) -> Vec<u8> {
    s.bytes().collect()
}

#[test]
fn bytes_tag_test_parse_matches() {
    let mut input = Buf::new(bytes("(){}[]<>"));
    parse_next::<Tag, u8>(&mut input, &bytes("(")).unwrap();
    parse_next::<Tag, u8>(&mut input, &bytes(")")).unwrap();
    parse_next::<Tag, u8>(&mut input, &bytes("{")).unwrap();
    parse_next::<Tag, u8>(&mut input, &bytes("}")).unwrap();
    parse_next::<Tag, u8>(&mut input, &bytes("[")).unwrap();
    parse_next::<Tag, u8>(&mut input, &bytes("]")).unwrap();
    parse_next::<Tag, u8>(&mut input, &bytes("<")).unwrap();
    parse_next::<Tag, u8>(&mut input, &bytes(">")).unwrap();
    assert!(input.next().is_none())
}

#[test]
fn bytes_tag_test_parse_errors() {
    let res: Result<Tag, _> = parse(bytes("1"), &bytes("("));
    assert_eq!(res.unwrap_err().message(), "failed to parse tag [40], found [49]");

    let res: Result<Tag, _> = parse(bytes("1"), &bytes(")"));
    assert_eq!(res.unwrap_err().message(), "failed to parse tag [41], found [49]");
}

#[test]
fn bytes_tag_lists_every_byte() {
    let res: Result<Tag, _> = parse(bytes("xy"), &bytes("()"));
    assert_eq!(res.unwrap_err().message(), "failed to parse tag [40, 41], found [120, 121]");
}

#[test]
fn bytes_one_of_picks_a_byte() {
    let res: OneOf = parse(bytes("-"), &bytes("-_")).unwrap();
    assert_eq!(res.process(), b'-');

    let res: Result<OneOf, _> = parse(bytes("x"), &bytes("-_"));
    assert_eq!(res.unwrap_err().message(), "error parsing one of [45, 95], found 120");
}

#[test]
fn bytes_one_of_reports_exhausted_input() {
    let res: Result<OneOf, _> = parse(bytes(""), &bytes("-_"));
    assert_eq!(res.unwrap_err().message(), "error parsing one of [45, 95], reached EOF");
}

#[test]
fn bytes_any_of1_collects_a_run() {
    let mut input = Buf::new(bytes("-_-."));
    let res: AnyOf1 = parse_next(&mut input, &bytes("-_")).unwrap();
    assert_eq!(res.process(), bytes("-_-"));
    assert_eq!(input.next(), Some(b'.'));
}
