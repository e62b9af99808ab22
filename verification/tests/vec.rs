use nommy::Buf;
use nommy::Buffer;
use nommy::parse;
use nommy::parse_next;
use nommy::text::AnyOf1;
use nommy::text::OneOf;
use nommy::text::Tag;
use nommy::text::WhiteSpace;
use nommy::vec::Trailing;
use nommy::vec::VecArgs;
use nommy::vec::VecSeperated;

fn chars(s: &str) -> Vec<char> {
    s.chars().collect()
}

fn rest(input: &mut Buf<char>) -> String {
    let mut out = String::new();
    while let Some(c) = input.next() {
        out.push(c);
    }
    out
}

#[test]
fn sequence1() {
    let mut input = Buf::new(chars("foo bar baz..."));
    let res: Vec<String> = parse_next::<VecSeperated<AnyOf1, String, WhiteSpace>, char>(
        &mut input,
        &VecArgs {
            max: Some(2),
            extra: (chars("abcdefghijklmnopqrstuvwxyz"), ()),
            ..Default::default()
        },
    )
    .unwrap()
    .into();
    assert_eq!(res, vec!["foo".to_string(), "bar".to_string()]);
    assert_eq!(rest(&mut input), " baz...".to_string())
}

#[test]
fn trailing_forbidden_leaves_the_final_separator() {
    let mut input = Buf::new(chars("1,2,3,"));
    let res: Vec<char> = parse_next::<VecSeperated<OneOf, char, Tag>, char>(
        &mut input,
        &VecArgs {
            trailing: Trailing::Forbidden,
            extra: (chars("0123456789"), chars(",")),
            ..Default::default()
        },
    )
    .unwrap()
    .into();
    assert_eq!(res, vec!['1', '2', '3']);
    assert_eq!(rest(&mut input), ",".to_string());
}

#[test]
fn trailing_required_consumes_the_final_separator() {
    let mut input = Buf::new(chars("1,2,3,"));
    let res: Vec<char> = parse_next::<VecSeperated<OneOf, char, Tag>, char>(
        &mut input,
        &VecArgs {
            trailing: Trailing::Required,
            extra: (chars("0123456789"), chars(",")),
            ..Default::default()
        },
    )
    .unwrap()
    .into();
    assert_eq!(res, vec!['1', '2', '3']);
    assert_eq!(rest(&mut input), "".to_string());
}

#[test]
fn trailing_required_rejects_a_dangling_element() {
    let mut input = Buf::new(chars("1,2,3"));
    let res = parse_next::<VecSeperated<OneOf, char, Tag>, char>(
        &mut input,
        &VecArgs {
            trailing: Trailing::Required,
            extra: (chars("0123456789"), chars(",")),
            ..Default::default()
        },
    );
    assert!(res.is_err());
}

#[test]
fn trailing_optional_accepts_both() {
    for input_text in ["1,2,3,", "1,2,3"] {
        let mut input = Buf::new(chars(input_text));
        let res: Vec<char> = parse_next::<VecSeperated<OneOf, char, Tag>, char>(
            &mut input,
            &VecArgs {
                trailing: Trailing::Optional,
                extra: (chars("0123456789"), chars(",")),
                ..Default::default()
            },
        )
        .unwrap()
        .into();
        assert_eq!(res, vec!['1', '2', '3']);
        assert_eq!(rest(&mut input), "".to_string());
    }
}

#[test]
fn separator_composes_an_ignore_pass() {
    // Whitespace around the comma is applied but not retained: the
    // separator is the triple of a space run, the comma, and a space run.
    let mut input = Buf::new(chars("foo, bar , baz,..."));
    let res: Vec<String> = parse_next::<
        VecSeperated<AnyOf1, String, (Vec<nommy::text::Space>, Tag, Vec<nommy::text::Space>)>,
        char,
    >(
        &mut input,
        &VecArgs {
            extra: (
                chars("abcdefghijklmnopqrstuvwxyz"),
                (VecArgs::default(), chars(","), VecArgs::default()),
            ),
            ..Default::default()
        },
    )
    .unwrap()
    .into();
    assert_eq!(res, vec!["foo".to_string(), "bar".to_string(), "baz".to_string()]);
    assert_eq!(rest(&mut input), ",...".to_string());
}

#[test]
fn minimum_of_one_rejects_an_empty_list() {
    let res = parse::<VecSeperated<OneOf, char, Tag>, Vec<char>>(chars("..."), &VecArgs {
        min: 1,
        extra: (chars("0123456789"), chars(",")),
        ..Default::default()
    });
    assert_eq!(res.unwrap_err().message(), "could not parse minimum required elements");
}

#[test]
fn bounds_that_admit_no_count_are_rejected() {
    let res = parse::<VecSeperated<OneOf, char, Tag>, Vec<char>>(chars("1,2"), &VecArgs {
        min: 2,
        max: Some(1),
        extra: (chars("0123456789"), chars(",")),
        ..Default::default()
    });
    assert_eq!(res.unwrap_err().message(), "could not parse minimum required elements");
}
