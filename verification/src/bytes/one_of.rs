use vstd::prelude::*;

use crate::Parse;
use crate::Process;
use crate::buffer::Buf;
use crate::buffer::Cursor;
use crate::error::ParseError;

verus! {

/// Whether the vector holds the byte `c`.
pub(crate) fn contains_byte(v: &Vec<u8>, c: u8) -> (r: bool)
    ensures
        r == v@.contains(c),
{
    let mut i: usize = 0;
    while i < v.len()
        invariant
            i <= v@.len(),
            forall|j: int| 0 <= j < i ==> v@[j] != c,
        decreases v@.len() - i,
    {
        if v[i] == c {
            return true;
        }
        i = i + 1;
    }
    false
}

/// `OneOf` matches a single byte out of the set handed in as its argument,
/// consuming exactly one byte.
#[derive(Debug, Copy, Clone, PartialEq, Eq, Structural)]
pub struct OneOf(pub u8);

impl DeepView for OneOf {
    type V = OneOf;

    open spec fn deep_view(&self) -> OneOf {
        *self
    }
}

impl Parse<u8> for OneOf {
    type Args = Vec<u8>;

    open spec fn spec_parse(args: Vec<u8>, s: Seq<u8>) -> Option<(OneOf, int)> {
        if s.len() > 0 && args@.contains(s[0]) {
            Some((OneOf(s[0]), 1))
        } else {
            None
        }
    }

    proof fn lemma_parse_length(args: Vec<u8>, s: Seq<u8>) {
    }

    fn parse(cur: &mut Cursor, buf: &mut Buf<u8>, args: &Vec<u8>) -> (r: Result<
        Self,
        ParseError,
    >) {
        match cur.next(buf) {
            Some(c) => {
                if contains_byte(args, c) {
                    Ok(OneOf(c))
                } else {
                    Err(ParseError::ByteOneOfMismatch { choices: args.clone(), found: Some(c) })
                }
            },
            None => Err(ParseError::ByteOneOfMismatch { choices: args.clone(), found: None }),
        }
    }

    fn peek(cur: &mut Cursor, buf: &mut Buf<u8>, args: &Vec<u8>) -> (r: bool) {
        Self::parse(cur, buf, args).is_ok()
    }
}

impl Process for OneOf {
    type Output = u8;

    open spec fn spec_process(v: OneOf) -> u8 {
        v.0
    }

    fn process(self) -> (r: u8) {
        self.0
    }
}

} // verus!
