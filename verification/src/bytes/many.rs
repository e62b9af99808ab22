use vstd::prelude::*;

use crate::Parse;
use crate::Process;
use crate::buffer::Buf;
use crate::buffer::Buffer;
use crate::buffer::Cursor;
use crate::bytes::one_of::OneOf;
use crate::error::ParseError;
use crate::lemma_buf_len_bounded;
use crate::lemma_match_len_is;
use crate::match_len;

verus! {

/// The predicate of the bytes in the set `bytes`.
pub open spec fn in_byte_set(bytes: Seq<u8>) -> spec_fn(u8) -> bool {
    |c: u8| bytes.contains(c)
}

/// `AnyOf1` matches the longest run of bytes out of the set handed in as
/// its argument, and fails when that run is empty.
#[derive(Debug, Clone, PartialEq)]
pub struct AnyOf1(pub Vec<u8>);

impl DeepView for AnyOf1 {
    type V = Seq<u8>;

    open spec fn deep_view(&self) -> Seq<u8> {
        self.0@
    }
}

impl Parse<u8> for AnyOf1 {
    type Args = Vec<u8>;

    open spec fn spec_parse(args: Vec<u8>, s: Seq<u8>) -> Option<(Seq<u8>, int)> {
        if match_len(in_byte_set(args@), s) == 0 {
            None
        } else {
            Some((s.take(match_len(in_byte_set(args@), s)), match_len(in_byte_set(args@), s)))
        }
    }

    proof fn lemma_parse_length(args: Vec<u8>, s: Seq<u8>) {
        crate::lemma_match_len(in_byte_set(args@), s);
    }

    fn parse(cur: &mut Cursor, buf: &mut Buf<u8>, args: &Vec<u8>) -> (r: Result<
        Self,
        ParseError,
    >) {
        let ghost s = old(buf)@.skip(old(cur).abs());
        let ghost p = in_byte_set(args@);
        let mut output: Vec<u8> = Vec::new();
        let ghost mut k: int = 0;
        proof {
            assert(output@ =~= s.take(0));
        }
        loop
            invariant
                buf.wf(),
                buf@ == old(buf)@,
                cur.spec_base() == old(cur).spec_base(),
                cur.valid(buf@.len() as int),
                s == buf@.skip(old(cur).abs()),
                p == in_byte_set(args@),
                0 <= k <= s.len(),
                cur.spec_index() == old(cur).spec_index() + k,
                output@ == s.take(k),
                forall|i: int| 0 <= i < k ==> p(s[i]),
            ensures
                match_len(p, s) == k,
                output@ == s.take(k),
                cur.spec_index() == old(cur).spec_index() + k,
                buf.wf(),
                buf@ == old(buf)@,
                cur.spec_base() == old(cur).spec_base(),
                cur.valid(buf@.len() as int),
            decreases s.len() - k,
        {
            proof {
                lemma_buf_len_bounded(buf);
            }
            let mut child = cur.cursor();
            proof {
                assert(buf@.skip(child.abs()) =~= s.skip(k));
            }
            match OneOf::parse(&mut child, buf, args) {
                Ok(o) => {
                    output.push(o.process());
                    cur.fast_forward(1);
                    proof {
                        k = k + 1;
                        assert(output@ =~= s.take(k));
                    }
                },
                Err(_) => {
                    proof {
                        lemma_match_len_is(p, s, k);
                    }
                    break ;
                },
            }
        }
        if output.len() == 0 {
            Err(ParseError::NoCharactersFound)
        } else {
            Ok(AnyOf1(output))
        }
    }

    fn peek(cur: &mut Cursor, buf: &mut Buf<u8>, args: &Vec<u8>) -> (r: bool) {
        Self::parse(cur, buf, args).is_ok()
    }
}

impl Process for AnyOf1 {
    type Output = Vec<u8>;

    open spec fn spec_process(v: Seq<u8>) -> Seq<u8> {
        v
    }

    fn process(self) -> (r: Vec<u8>) {
        proof {
            assert(self.0.deep_view() =~= self.0@);
        }
        self.0
    }
}

} // verus!
