use vstd::prelude::*;

use crate::Parse;
use crate::Process;
use crate::buffer::Buf;
use crate::buffer::Buffer;
use crate::buffer::Cursor;
use crate::error::ParseError;

verus! {

/// Whether the vector holds the character `c`.
pub(crate) fn contains_char(v: &Vec<char>, c: char) -> (r: bool)
    ensures
        r == v@.contains(c),
{
    let mut i: usize = 0;
    while i < v.len()
        invariant
            i <= v@.len(),
            forall|j: int| 0 <= j < i ==> v@[j] != c,
        decreases v@.len() - i,
    {
        if v[i] == c {
            return true;
        }
        i = i + 1;
    }
    false
}

/// `OneOf` matches a single character out of the set handed in as its
/// argument, consuming exactly one character.
#[derive(Debug, Copy, Clone, PartialEq, Eq, Structural)]
pub struct OneOf(pub char);

impl DeepView for OneOf {
    type V = OneOf;

    open spec fn deep_view(&self) -> OneOf {
        *self
    }
}

impl Parse<char> for OneOf {
    type Args = Vec<char>;

    open spec fn spec_parse(args: Vec<char>, s: Seq<char>) -> Option<(OneOf, int)> {
        if s.len() > 0 && args@.contains(s[0]) {
            Some((OneOf(s[0]), 1))
        } else {
            None
        }
    }

    proof fn lemma_parse_length(args: Vec<char>, s: Seq<char>) {
    }

    fn parse(cur: &mut Cursor, buf: &mut Buf<char>, args: &Vec<char>) -> (r: Result<
        Self,
        ParseError,
    >) {
        match cur.next(buf) {
            Some(c) => {
                if contains_char(args, c) {
                    Ok(OneOf(c))
                } else {
                    Err(ParseError::OneOfMismatch { choices: args.clone(), found: Some(c) })
                }
            },
            None => Err(ParseError::OneOfMismatch { choices: args.clone(), found: None }),
        }
    }

    fn peek(cur: &mut Cursor, buf: &mut Buf<char>, args: &Vec<char>) -> (r: bool) {
        Self::parse(cur, buf, args).is_ok()
    }
}

impl Process for OneOf {
    type Output = char;

    open spec fn spec_process(v: OneOf) -> char {
        v.0
    }

    fn process(self) -> (r: char) {
        self.0
    }
}

} // verus!
