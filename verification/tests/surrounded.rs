use nommy::Buf;
use nommy::Buffer;
use nommy::Parse;
use nommy::PrefixedBy;
use nommy::SuffixedBy;
use nommy::SurroundedBy;
use nommy::parse;
use nommy::text::Tag;

fn chars(s: &str) -> Vec<char> {
    s.chars().collect()
}

#[test]
fn prefixed_by() {
    let _: PrefixedBy<Tag, Tag> = parse(chars("(."), &(chars("("), chars("."))).unwrap();
}

#[test]
fn suffixed_by() {
    let _: SuffixedBy<Tag, Tag> = parse(chars(".)"), &(chars("."), chars(")"))).unwrap();
}

#[test]
fn surrounded_by() {
    let _: SurroundedBy<Tag, Tag, Tag> = parse(chars("(.)"), &(
        chars("("),
        chars("."),
        chars(")"),
    ))
    .unwrap();
}

#[test]
fn prefixed_by_peek() {
    let mut input = Buf::new(chars("(."));
    let mut cursor = input.cursor();
    assert!(PrefixedBy::<Tag, Tag>::peek(&mut cursor, &mut input, &(chars("("), chars("."))));
    assert!(cursor.next(&mut input).is_none());
}

#[test]
fn suffixed_by_peek() {
    let mut input = Buf::new(chars(".)"));
    let mut cursor = input.cursor();
    assert!(SuffixedBy::<Tag, Tag>::peek(&mut cursor, &mut input, &(chars("."), chars(")"))));
    assert!(cursor.next(&mut input).is_none());
}

#[test]
fn surrounded_by_peek() {
    let mut input = Buf::new(chars("(.)"));
    let mut cursor = input.cursor();
    assert!(SurroundedBy::<Tag, Tag, Tag>::peek(&mut cursor, &mut input, &(
        chars("("),
        chars("."),
        chars(")"),
    )));
    assert!(cursor.next(&mut input).is_none());
}

#[test]
fn prefixed_by_reports_the_failing_part() {
    let res: Result<PrefixedBy<Tag, Tag>, _> = parse(chars("x."), &(chars("("), chars(".")));
    assert_eq!(
        res.unwrap_err().message(),
        "could not parse prefix: failed to parse tag \"(\", found \"x\""
    );

    let res: Result<PrefixedBy<Tag, Tag>, _> = parse(chars("(x"), &(chars("("), chars(".")));
    assert_eq!(
        res.unwrap_err().message(),
        "could not parse body: failed to parse tag \".\", found \"x\""
    );
}

#[test]
fn surrounded_by_reports_the_failing_part() {
    let res: Result<SurroundedBy<Tag, Tag, Tag>, _> = parse(chars("(.x"), &(
        chars("("),
        chars("."),
        chars(")"),
    ));
    assert_eq!(
        res.unwrap_err().message(),
        "could not parse suffix: failed to parse tag \")\", found \"x\""
    );
}
