use vstd::prelude::*;

use crate::Parse;
use crate::buffer::Buf;
use crate::buffer::Buffer;
use crate::buffer::Cursor;
use crate::error::ParseError;

verus! {

/// The failure report of a byte [`Tag`]: the expected bytes and the bytes
/// that were actually read (fewer when the input ran out).
#[derive(Debug, PartialEq)]
pub struct TagParseError {
    /// The bytes the tag expected.
    pub expected: Vec<u8>,
    /// The bytes that stood in the input.
    pub found: Vec<u8>,
}

/// `Tag` matches an exact sequence of bytes, handed in as its argument. It
/// consumes exactly that many bytes and fails when they differ from the tag
/// or the input runs out first.
#[derive(Debug, Copy, Clone, PartialEq, Eq, Structural)]
pub struct Tag;

impl DeepView for Tag {
    type V = Tag;

    open spec fn deep_view(&self) -> Tag {
        *self
    }
}

impl Parse<u8> for Tag {
    type Args = Vec<u8>;

    open spec fn spec_parse(args: Vec<u8>, s: Seq<u8>) -> Option<(Tag, int)> {
        if args@.len() <= s.len() && s.take(args@.len() as int) == args@ {
            Some((Tag, args@.len() as int))
        } else {
            None
        }
    }

    proof fn lemma_parse_length(args: Vec<u8>, s: Seq<u8>) {
    }

    fn parse(cur: &mut Cursor, buf: &mut Buf<u8>, args: &Vec<u8>) -> (r: Result<
        Self,
        ParseError,
    >) {
        let ghost s = old(buf)@.skip(old(cur).abs());
        let n = args.len();
        let mut found: Vec<u8> = Vec::new();
        let mut matches_tag = true;
        let mut hit_end = false;
        let mut k: usize = 0;
        proof {
            assert(found@ =~= s.take(0));
            assert(found@ =~= args@.take(0));
        }
        while k < n && !hit_end
            invariant
                buf.wf(),
                buf@ == old(buf)@,
                cur.spec_base() == old(cur).spec_base(),
                cur.valid(buf@.len() as int),
                n == args@.len(),
                k <= n,
                k <= s.len(),
                s == buf@.skip(old(cur).abs()),
                cur.spec_index() == old(cur).spec_index() + k,
                found@ == s.take(k as int),
                hit_end ==> k == s.len() && k < n,
                matches_tag <==> found@ == args@.take(k as int),
            decreases n - k, (if hit_end {
                0int
            } else {
                1int
            }),
        {
            match cur.next(buf) {
                Some(c) => {
                    found.push(c);
                    let same = c == args[k];
                    proof {
                        assert(found@ =~= s.take(k + 1));
                        if matches_tag && same {
                            assert(args@.take(k + 1) =~= args@.take(k as int).push(
                                args@[k as int],
                            ));
                            assert(found@ =~= args@.take(k + 1));
                        } else {
                            assert(found@ != args@.take(k + 1)) by {
                                if found@ == args@.take(k + 1) {
                                    assert(found@.take(k as int) =~= s.take(k as int));
                                    assert(args@.take(k + 1).take(k as int) =~= args@.take(
                                        k as int,
                                    ));
                                    assert(found@[k as int] == args@.take(k + 1)[k as int]);
                                }
                            };
                        }
                    }
                    if !same {
                        matches_tag = false;
                    }
                    k = k + 1;
                },
                None => {
                    hit_end = true;
                },
            }
        }
        if matches_tag && k == n && !hit_end {
            proof {
                assert(args@.take(n as int) =~= args@);
            }
            Ok(Tag)
        } else {
            proof {
                assert(args@.take(n as int) =~= args@);
            }
            Err(
                ParseError::ByteTag(
                    TagParseError { expected: args.clone(), found },
                ),
            )
        }
    }

    fn peek(cur: &mut Cursor, buf: &mut Buf<u8>, args: &Vec<u8>) -> (r: bool) {
        Self::parse(cur, buf, args).is_ok()
    }
}

} // verus!
