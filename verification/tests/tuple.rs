use nommy::Buf;
use nommy::Buffer;
use nommy::parse;
use nommy::parse_next;
use nommy::text::Tag;

fn chars(s: &str) -> Vec<char> {
    s.chars().collect()
}

#[test]
fn tuple_test_parse_matches_pairs() {
    let mut input = Buf::new(chars("(){}"));
    parse_next::<(Tag, Tag), char>(&mut input, &(chars("("), chars(")"))).unwrap();
    parse_next::<(Tag, Tag), char>(&mut input, &(chars("{"), chars("}"))).unwrap();
    assert!(input.next().is_none());
}

#[test]
fn tuple_test_parse_matches_oct() {
    let mut input = Buf::new(chars("(){}"));
    parse_next::<(Tag, Tag, Tag, Tag), char>(&mut input, &(
        chars("("),
        chars(")"),
        chars("{"),
        chars("}"),
    ))
    .unwrap();
    assert!(input.next().is_none());
}

#[test]
fn tuple_wraps_the_failing_term() {
    let res: Result<(Tag, Tag, Tag, Tag), _> = parse(chars("(){."), &(
        chars("("),
        chars(")"),
        chars("{"),
        chars("}"),
    ));
    assert_eq!(
        res.unwrap_err().message(),
        "error parsing term 4: failed to parse tag \"}\", found \".\""
    );
}

#[test]
fn triple_parses_in_order() {
    let mut input = Buf::new(chars("abc"));
    parse_next::<(Tag, Tag, Tag), char>(&mut input, &(chars("a"), chars("b"), chars("c")))
        .unwrap();
    assert!(input.next().is_none());
}
