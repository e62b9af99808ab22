use nommy::Buf;
use nommy::Buffer;
use nommy::Parse;
use nommy::Vec1;
use nommy::parse;
use nommy::parse_terminated;
use nommy::text::AnyOf1;
use nommy::text::Tag;
use nommy::text::WhileNot1;
use nommy::vec::VecArgs;

fn chars(s: &str) -> Vec<char> {
    s.chars().collect()
}

#[test]
fn option() {
    let res: Option<Tag> = parse(chars("."), &chars(".")).unwrap();
    assert!(res.is_some());
}

#[test]
fn option_none() {
    let res: Option<Tag> = parse(chars(""), &chars(".")).unwrap();
    assert!(res.is_none());
}

#[test]
fn sequence() {
    let res: Vec<Tag> = parse(chars("..."), &VecArgs {
        extra: chars("."),
        ..Default::default()
    })
    .unwrap();
    assert_eq!(res.len(), 3);
}

#[test]
fn sequence_peek() {
    let mut input = Buf::new(chars("...-"));
    let mut cursor = input.cursor();
    assert!(Vec::<Tag>::peek(&mut cursor, &mut input, &VecArgs {
        extra: chars("."),
        ..Default::default()
    }));
    assert_eq!(cursor.next(&mut input), Some('-'));
}

#[test]
fn sequence2_peek() {
    let mut input = Buf::new(chars("-...-"));
    let mut cursor = input.cursor();

    assert!(Tag::peek(&mut cursor, &mut input, &chars("-")));
    assert!(Vec::<Tag>::peek(&mut cursor, &mut input, &VecArgs {
        extra: chars("."),
        ..Default::default()
    }));
    assert_eq!(cursor.next(&mut input), Some('-'));
}

#[test]
fn count() {
    let _: [Tag; 3] = parse(chars("..."), &chars(".")).unwrap();
}

#[test]
fn sequence_none() {
    let res: Vec<Tag> = parse(chars("-"), &VecArgs { extra: chars("."), ..Default::default() })
        .unwrap();
    assert!(res.is_empty())
}

#[test]
fn sequence_respects_max() {
    let res: Vec<Tag> = parse(chars("....."), &VecArgs {
        max: Some(2),
        extra: chars("."),
        ..Default::default()
    })
    .unwrap();
    assert_eq!(res.len(), 2);
}

#[test]
fn sequence_minimum_not_met() {
    let res: Result<Vec<Tag>, _> = parse(chars("-"), &VecArgs {
        min: 1,
        extra: chars("."),
        ..Default::default()
    });
    assert_eq!(res.unwrap_err().message(), "could not parse minimum required elements");
}

#[test]
fn infinite_loop_detected() {
    // `Option<Tag>` never fails, so repeating it can match zero tokens
    // forever; the repetition reports the contract violation instead of
    // hanging.
    let res: Result<Vec<Option<Tag>>, _> = parse(chars("..."), &VecArgs {
        extra: chars("x"),
        ..Default::default()
    });
    assert_eq!(
        res.unwrap_err().message(),
        "parsing succeeded with 0 tokens read. infinite loop detected"
    );
}

#[test]
fn vec1_needs_a_first_element() {
    let res: Result<Vec1<Tag>, _> = parse(chars("-"), &VecArgs {
        extra: chars("."),
        ..Default::default()
    });
    assert_eq!(res.unwrap_err().message(), "failed to parse tag \".\", found \"-\"");

    let res: Vec1<Tag> = parse(chars("..-"), &VecArgs { extra: chars("."), ..Default::default() })
        .unwrap();
    assert_eq!(res.0.len(), 2);
}

#[test]
fn boxed_parse_matches_inner() {
    let res: Box<Tag> = parse(chars("."), &chars(".")).unwrap();
    let _ = res;
}

#[test]
fn while_not1_collects_until_stop() {
    let res: WhileNot1 = parse(chars("-_-."), &chars(".")).unwrap();
    let s: String = nommy::Process::process(res);
    assert_eq!(s, "-_-");
}

#[test]
fn any_of1_rejects_empty_run() {
    let res: Result<AnyOf1, _> = parse(chars("$"), &chars("0123456789"));
    assert_eq!(res.unwrap_err().message(), "no characters found");
}

#[test]
fn peek_true_implies_parse_ok() {
    // Wherever peek reports a possible match, parse at the same starting
    // position succeeds: here for a leaf, an absorbing combinator, and a
    // repetition, on the same input.
    let inputs = ["...", "..-", "-"];
    for text in inputs {
        let mut buffer = Buf::new(text.chars().collect());
        let mut cursor = buffer.cursor();
        if Tag::peek(&mut cursor, &mut buffer, &chars(".")) {
            assert!(parse::<Tag, Vec<char>>(text.chars().collect(), &chars(".")).is_ok());
        }
        let mut cursor = buffer.cursor();
        if Option::<Tag>::peek(&mut cursor, &mut buffer, &chars(".")) {
            assert!(parse::<Option<Tag>, Vec<char>>(text.chars().collect(), &chars(".")).is_ok());
        }
        let vec_args = VecArgs { extra: chars("."), ..Default::default() };
        let mut cursor = buffer.cursor();
        if Vec::<Tag>::peek(&mut cursor, &mut buffer, &vec_args) {
            assert!(parse::<Vec<Tag>, Vec<char>>(text.chars().collect(), &vec_args).is_ok());
        }
    }
}

#[test]
fn parse_terminated_rejects_leftover_input() {
    let res: Result<Tag, _> = parse_terminated(chars("."), &chars("."));
    res.unwrap();
    let res: Result<Tag, _> = parse_terminated(chars(".."), &chars("."));
    assert_eq!(res.unwrap_err().message(), "input was not parsed completely");
}
