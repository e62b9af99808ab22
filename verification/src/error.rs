//! Structured parse errors.
//!
//! Ordinary match failures are reported as values of [`ParseError`];
//! combinators that wrap sub-parsers annotate an inner failure with
//! positional or structural context, forming a readable cause chain that
//! [`ParseError::message`] renders. A [`ParseError::ZeroProgress`] is not
//! an input-rejection outcome but the report of a contract violation by a
//! sub-parser: a repetition combinator detected a successful sub-parse that
//! consumed no tokens, which would otherwise loop forever.

use vstd::prelude::*;
use vstd::string::StringExecFns;

verus! {

/// Which part of a surrounded combinator failed.
#[derive(Debug)]
pub enum PrefixedByParseError {
    /// The leading matcher failed.
    Prefix(Box<ParseError>),
    /// The body between the wrappers failed.
    Parsed(Box<ParseError>),
    /// The trailing matcher failed.
    Suffix(Box<ParseError>),
}

/// The failure report of a parse: what was expected and what stood in the
/// input instead, possibly wrapped in context naming the term that failed.
#[derive(Debug)]
pub enum ParseError {
    /// A literal tag of characters did not match: the expected tag and the
    /// tokens that were actually read (fewer when the input ran out).
    TagMismatch { expected: Vec<char>, found: Vec<char> },
    /// A literal tag of bytes did not match.
    ByteTag(crate::bytes::TagParseError),
    /// No character of the given set stood at the read position; `found` is
    /// `None` when the input was exhausted instead.
    OneOfMismatch { choices: Vec<char>, found: Option<char> },
    /// No byte of the given set stood at the read position.
    ByteOneOfMismatch { choices: Vec<u8>, found: Option<u8> },
    /// A matcher that needs at least one character matched none.
    NoCharactersFound,
    /// A line ending was expected.
    ExpectedLineEnding,
    /// A space or tab was expected.
    ExpectedSpace,
    /// A whitespace character was expected.
    ExpectedWhiteSpace,
    /// A list combinator collected fewer elements than its minimum, or its
    /// bounds admit no count at all.
    MinimumNotMet,
    /// A sub-parser reported success after consuming no tokens inside a
    /// repetition: a contract violation that would loop forever.
    ZeroProgress,
    /// A tuple or array element failed; `index` counts terms from one.
    Term { index: usize, inner: Box<ParseError> },
    /// A wrapper combinator failed in the named part.
    Surrounded(PrefixedByParseError),
    /// The input was not consumed completely.
    Incomplete,
}

/// The decimal digit `d` as a character, for `0 <= d <= 9`.
pub open spec fn spec_digit(d: int) -> char {
    ((48 + d) as u8) as char
}

/// The decimal rendering of the non-negative number `n`.
pub open spec fn spec_decimal(n: int) -> Seq<char>
    decreases n,
{
    if n < 10 {
        seq![spec_digit(n)]
    } else {
        spec_decimal(n / 10) + seq![spec_digit(n % 10)]
    }
}

/// The byte items of a debug-style list, separated by comma and space.
pub open spec fn spec_byte_items(v: Seq<u8>) -> Seq<char>
    decreases v.len(),
{
    if v.len() == 0 {
        Seq::empty()
    } else if v.len() == 1 {
        spec_decimal(v[0] as int)
    } else {
        spec_decimal(v[0] as int) + seq![',', ' '] + spec_byte_items(v.skip(1))
    }
}

/// A debug-style rendering of a byte sequence, such as `[40, 41]`.
pub open spec fn spec_byte_list(v: Seq<u8>) -> Seq<char> {
    seq!['['] + spec_byte_items(v) + seq![']']
}

/// What [`ParseError::message`] renders for each report.
pub open spec fn spec_message(e: ParseError) -> Seq<char>
    decreases e,
{
    match e {
        ParseError::TagMismatch { expected, found } => "failed to parse tag \""@ + expected@
            + "\", found \""@ + found@ + "\""@,
        ParseError::ByteTag(te) => "failed to parse tag "@ + spec_byte_list(te.expected@)
            + ", found "@ + spec_byte_list(te.found@),
        ParseError::OneOfMismatch { choices, found } => match found {
            Some(c) => "error parsing one of \""@ + choices@ + "\", found '"@ + seq![c] + "'"@,
            None => "error parsing one of \""@ + choices@ + "\", reached EOF"@,
        },
        ParseError::ByteOneOfMismatch { choices, found } => match found {
            Some(c) => "error parsing one of "@ + spec_byte_list(choices@) + ", found "@
                + spec_decimal(c as int),
            None => "error parsing one of "@ + spec_byte_list(choices@) + ", reached EOF"@,
        },
        ParseError::NoCharactersFound => "no characters found"@,
        ParseError::ExpectedLineEnding => "could not parse line ending"@,
        ParseError::ExpectedSpace => "could not parse space"@,
        ParseError::ExpectedWhiteSpace => "could not parse whitespace"@,
        ParseError::MinimumNotMet => "could not parse minimum required elements"@,
        ParseError::ZeroProgress => "parsing succeeded with 0 tokens read. infinite loop detected"@,
        ParseError::Term { index, inner } => "error parsing term "@ + spec_decimal(index as int)
            + ": "@ + spec_message(*inner),
        ParseError::Surrounded(se) => match se {
            PrefixedByParseError::Prefix(inner) => "could not parse prefix: "@ + spec_message(
                *inner,
            ),
            PrefixedByParseError::Parsed(inner) => "could not parse body: "@ + spec_message(
                *inner,
            ),
            PrefixedByParseError::Suffix(inner) => "could not parse suffix: "@ + spec_message(
                *inner,
            ),
        },
        ParseError::Incomplete => "input was not parsed completely"@,
    }
}

/// Append the decimal rendering of `n` to `out`.
fn push_decimal(out: &mut String, n: usize)
    ensures
        final(out)@ == old(out)@ + spec_decimal(n as int),
    decreases n,
{
    if n < 10 {
        out.push((48 + n as u8) as char);
        proof {
            assert(out@ =~= old(out)@ + spec_decimal(n as int));
        }
    } else {
        push_decimal(out, n / 10);
        out.push((48 + (n % 10) as u8) as char);
        proof {
            assert(out@ =~= old(out)@ + spec_decimal(n as int));
        }
    }
}

/// Append every character of `v` to `out`.
fn push_chars(out: &mut String, v: &Vec<char>)
    ensures
        final(out)@ == old(out)@ + v@,
{
    let mut i: usize = 0;
    while i < v.len()
        invariant
            i <= v@.len(),
            out@ == old(out)@ + v@.take(i as int),
        decreases v@.len() - i,
    {
        out.push(v[i]);
        i = i + 1;
        proof {
            assert(out@ =~= old(out)@ + v@.take(i as int));
        }
    }
    proof {
        assert(v@.take(v@.len() as int) =~= v@);
    }
}

/// Append the list items of `v` from position `i` on to `out`.
fn push_byte_items(out: &mut String, v: &Vec<u8>, i: usize)
    requires
        i <= v@.len(),
    ensures
        final(out)@ == old(out)@ + spec_byte_items(v@.skip(i as int)),
    decreases v@.len() - i,
{
    if i == v.len() {
        proof {
            assert(out@ =~= old(out)@ + spec_byte_items(v@.skip(i as int)));
        }
    } else if i + 1 == v.len() {
        push_decimal(out, v[i] as usize);
        proof {
            assert(v@.skip(i as int)[0] == v@[i as int]);
            assert(out@ =~= old(out)@ + spec_byte_items(v@.skip(i as int)));
        }
    } else {
        push_decimal(out, v[i] as usize);
        out.push(',');
        out.push(' ');
        push_byte_items(out, v, i + 1);
        proof {
            assert(v@.skip(i as int).skip(1) =~= v@.skip(i + 1));
            assert(out@ =~= old(out)@ + spec_byte_items(v@.skip(i as int)));
        }
    }
}

/// Append a debug-style byte list, such as `[40, 41]`, to `out`.
fn push_byte_list(out: &mut String, v: &Vec<u8>)
    ensures
        final(out)@ == old(out)@ + spec_byte_list(v@),
{
    out.push('[');
    proof {
        assert(v@.skip(0) =~= v@);
    }
    push_byte_items(out, v, 0);
    out.push(']');
    proof {
        assert(out@ =~= old(out)@ + spec_byte_list(v@));
    }
}

impl ParseError {
    /// Render the report as a human-readable message, innermost cause last.
    pub fn message(&self) -> (r: String)
        ensures
            r@ == spec_message(*self),
        decreases *self,
    {
        let mut out = String::new();
        match self {
            ParseError::TagMismatch { expected, found } => {
                out.append("failed to parse tag \"");
                push_chars(&mut out, expected);
                out.append("\", found \"");
                push_chars(&mut out, found);
                out.append("\"");
            },
            ParseError::ByteTag(te) => {
                out.append("failed to parse tag ");
                push_byte_list(&mut out, &te.expected);
                out.append(", found ");
                push_byte_list(&mut out, &te.found);
            },
            ParseError::OneOfMismatch { choices, found } => {
                out.append("error parsing one of \"");
                push_chars(&mut out, choices);
                match found {
                    Some(c) => {
                        out.append("\", found '");
                        out.push(*c);
                        out.append("'");
                        proof {
                            assert(seq![*c] =~= Seq::<char>::empty().push(*c));
                        }
                    },
                    None => {
                        out.append("\", reached EOF");
                    },
                }
            },
            ParseError::ByteOneOfMismatch { choices, found } => {
                out.append("error parsing one of ");
                push_byte_list(&mut out, choices);
                match found {
                    Some(c) => {
                        out.append(", found ");
                        push_decimal(&mut out, *c as usize);
                    },
                    None => {
                        out.append(", reached EOF");
                    },
                }
            },
            ParseError::NoCharactersFound => {
                out.append("no characters found");
            },
            ParseError::ExpectedLineEnding => {
                out.append("could not parse line ending");
            },
            ParseError::ExpectedSpace => {
                out.append("could not parse space");
            },
            ParseError::ExpectedWhiteSpace => {
                out.append("could not parse whitespace");
            },
            ParseError::MinimumNotMet => {
                out.append("could not parse minimum required elements");
            },
            ParseError::ZeroProgress => {
                out.append("parsing succeeded with 0 tokens read. infinite loop detected");
            },
            ParseError::Term { index, inner } => {
                out.append("error parsing term ");
                push_decimal(&mut out, *index);
                out.append(": ");
                let tail = inner.message();
                out.append(tail.as_str());
            },
            ParseError::Surrounded(se) => {
                match se {
                    PrefixedByParseError::Prefix(inner) => {
                        out.append("could not parse prefix: ");
                        let tail = inner.message();
                        out.append(tail.as_str());
                    },
                    PrefixedByParseError::Parsed(inner) => {
                        out.append("could not parse body: ");
                        let tail = inner.message();
                        out.append(tail.as_str());
                    },
                    PrefixedByParseError::Suffix(inner) => {
                        out.append("could not parse suffix: ");
                        let tail = inner.message();
                        out.append(tail.as_str());
                    },
                }
            },
            ParseError::Incomplete => {
                out.append("input was not parsed completely");
            },
        }
        proof {
            assert(out@ =~= spec_message(*self));
        }
        out
    }
}

} // verus!
