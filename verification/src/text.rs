//! Matchers over character input.

use vstd::prelude::*;

mod many;
mod one_of;
mod tag;

pub use many::AnyOf;
pub use many::AnyOf1;
pub use many::AnyInRange;
pub use many::WhileNot1;
pub use one_of::OneOf;
pub use tag::Tag;

use crate::Parse;
use crate::buffer::Buf;
use crate::buffer::Buffer;
use crate::buffer::Cursor;
use crate::error::ParseError;

verus! {

/// Matches a newline `"\n"` or a carriage-return newline `"\r\n"`.
#[derive(Debug, Copy, Clone, PartialEq, Eq, Structural)]
pub struct LineEnding;

impl DeepView for LineEnding {
    type V = LineEnding;

    open spec fn deep_view(&self) -> LineEnding {
        *self
    }
}

impl Parse<char> for LineEnding {
    type Args = ();

    open spec fn spec_parse(args: (), s: Seq<char>) -> Option<(LineEnding, int)> {
        if s.len() >= 1 && s[0] == '\n' {
            Some((LineEnding, 1))
        } else if s.len() >= 2 && s[0] == '\r' && s[1] == '\n' {
            Some((LineEnding, 2))
        } else {
            None
        }
    }

    proof fn lemma_parse_length(args: (), s: Seq<char>) {
    }

    fn parse(cur: &mut Cursor, buf: &mut Buf<char>, args: &()) -> (r: Result<Self, ParseError>) {
        match cur.next(buf) {
            Some(c) => {
                if c == '\n' {
                    Ok(LineEnding)
                } else if c == '\r' {
                    match cur.next(buf) {
                        Some(c2) => {
                            if c2 == '\n' {
                                Ok(LineEnding)
                            } else {
                                Err(ParseError::ExpectedLineEnding)
                            }
                        },
                        None => Err(ParseError::ExpectedLineEnding),
                    }
                } else {
                    Err(ParseError::ExpectedLineEnding)
                }
            },
            None => Err(ParseError::ExpectedLineEnding),
        }
    }

    fn peek(cur: &mut Cursor, buf: &mut Buf<char>, args: &()) -> (r: bool) {
        Self::parse(cur, buf, args).is_ok()
    }
}

/// Matches a single space or tab character.
#[derive(Debug, Copy, Clone, PartialEq, Eq, Structural)]
pub struct Space;

impl DeepView for Space {
    type V = Space;

    open spec fn deep_view(&self) -> Space {
        *self
    }
}

impl Parse<char> for Space {
    type Args = ();

    open spec fn spec_parse(args: (), s: Seq<char>) -> Option<(Space, int)> {
        if s.len() >= 1 && (s[0] == ' ' || s[0] == '\t') {
            Some((Space, 1))
        } else {
            None
        }
    }

    proof fn lemma_parse_length(args: (), s: Seq<char>) {
    }

    fn parse(cur: &mut Cursor, buf: &mut Buf<char>, args: &()) -> (r: Result<Self, ParseError>) {
        match cur.next(buf) {
            Some(c) => {
                if c == ' ' || c == '\t' {
                    Ok(Space)
                } else {
                    Err(ParseError::ExpectedSpace)
                }
            },
            None => Err(ParseError::ExpectedSpace),
        }
    }

    fn peek(cur: &mut Cursor, buf: &mut Buf<char>, args: &()) -> (r: bool) {
        Self::parse(cur, buf, args).is_ok()
    }
}

/// Matches a single whitespace token: a space, a tab, a newline, or a
/// carriage-return newline.
#[derive(Debug, Copy, Clone, PartialEq, Eq, Structural)]
pub struct WhiteSpace;

impl DeepView for WhiteSpace {
    type V = WhiteSpace;

    open spec fn deep_view(&self) -> WhiteSpace {
        *self
    }
}

impl Parse<char> for WhiteSpace {
    type Args = ();

    open spec fn spec_parse(args: (), s: Seq<char>) -> Option<(WhiteSpace, int)> {
        if s.len() >= 1 && (s[0] == ' ' || s[0] == '\t' || s[0] == '\n') {
            Some((WhiteSpace, 1))
        } else if s.len() >= 2 && s[0] == '\r' && s[1] == '\n' {
            Some((WhiteSpace, 2))
        } else {
            None
        }
    }

    proof fn lemma_parse_length(args: (), s: Seq<char>) {
    }

    fn parse(cur: &mut Cursor, buf: &mut Buf<char>, args: &()) -> (r: Result<Self, ParseError>) {
        match cur.next(buf) {
            Some(c) => {
                if c == ' ' || c == '\t' || c == '\n' {
                    Ok(WhiteSpace)
                } else if c == '\r' {
                    match cur.next(buf) {
                        Some(c2) => {
                            if c2 == '\n' {
                                Ok(WhiteSpace)
                            } else {
                                Err(ParseError::ExpectedWhiteSpace)
                            }
                        },
                        None => Err(ParseError::ExpectedWhiteSpace),
                    }
                } else {
                    Err(ParseError::ExpectedWhiteSpace)
                }
            },
            None => Err(ParseError::ExpectedWhiteSpace),
        }
    }

    fn peek(cur: &mut Cursor, buf: &mut Buf<char>, args: &()) -> (r: bool) {
        Self::parse(cur, buf, args).is_ok()
    }
}

} // verus!
