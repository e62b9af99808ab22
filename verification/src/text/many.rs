use vstd::prelude::*;

use crate::Parse;
use crate::Process;
use crate::buffer::Buf;
use crate::buffer::Buffer;
use crate::buffer::Cursor;
use crate::error::ParseError;
use crate::lemma_buf_len_bounded;
use crate::lemma_match_len_is;
use crate::match_len;
use crate::text::one_of::OneOf;

verus! {

/// The predicate of the characters in the set `chars`.
pub open spec fn in_set(chars: Seq<char>) -> spec_fn(char) -> bool {
    |c: char| chars.contains(c)
}

/// The predicate of the characters outside the set `chars`.
pub open spec fn out_of_set(chars: Seq<char>) -> spec_fn(char) -> bool {
    |c: char| !chars.contains(c)
}

/// The predicate of the characters between `lo` and `hi` inclusive.
pub open spec fn in_range(lo: char, hi: char) -> spec_fn(char) -> bool {
    |c: char| lo as u32 <= c as u32 && c as u32 <= hi as u32
}

/// `AnyOf` matches the longest run, possibly empty, of characters out of
/// the set handed in as its argument.
#[derive(Debug, Clone, PartialEq)]
pub struct AnyOf(pub String);

impl DeepView for AnyOf {
    type V = Seq<char>;

    open spec fn deep_view(&self) -> Seq<char> {
        self.0@
    }
}

impl Parse<char> for AnyOf {
    type Args = Vec<char>;

    open spec fn spec_parse(args: Vec<char>, s: Seq<char>) -> Option<(Seq<char>, int)> {
        Some((s.take(match_len(in_set(args@), s)), match_len(in_set(args@), s)))
    }

    proof fn lemma_parse_length(args: Vec<char>, s: Seq<char>) {
        crate::lemma_match_len(in_set(args@), s);
    }

    fn parse(cur: &mut Cursor, buf: &mut Buf<char>, args: &Vec<char>) -> (r: Result<
        Self,
        ParseError,
    >) {
        let ghost s = old(buf)@.skip(old(cur).abs());
        let ghost p = in_set(args@);
        let mut output = String::new();
        let ghost mut k: int = 0;
        loop
            invariant
                buf.wf(),
                buf@ == old(buf)@,
                cur.spec_base() == old(cur).spec_base(),
                cur.valid(buf@.len() as int),
                s == buf@.skip(old(cur).abs()),
                p == in_set(args@),
                0 <= k <= s.len(),
                cur.spec_index() == old(cur).spec_index() + k,
                output@ == s.take(k),
                forall|i: int| 0 <= i < k ==> p(s[i]),
            ensures
                match_len(p, s) == k,
                output@ == s.take(k),
                cur.spec_index() == old(cur).spec_index() + k,
                buf.wf(),
                buf@ == old(buf)@,
                cur.spec_base() == old(cur).spec_base(),
                cur.valid(buf@.len() as int),
            decreases s.len() - k,
        {
            proof {
                lemma_buf_len_bounded(buf);
            }
            let mut child = cur.cursor();
            proof {
                assert(buf@.skip(child.abs()) =~= s.skip(k));
            }
            match OneOf::parse(&mut child, buf, args) {
                Ok(o) => {
                    output.push(o.process());
                    cur.fast_forward(1);
                    proof {
                        k = k + 1;
                        assert(output@ =~= s.take(k));
                    }
                },
                Err(_) => {
                    proof {
                        lemma_match_len_is(p, s, k);
                    }
                    break ;
                },
            }
        }
        Ok(AnyOf(output))
    }

    fn peek(cur: &mut Cursor, buf: &mut Buf<char>, args: &Vec<char>) -> (r: bool) {
        Self::parse(cur, buf, args).is_ok()
    }
}

impl Process for AnyOf {
    type Output = String;

    open spec fn spec_process(v: Seq<char>) -> Seq<char> {
        v
    }

    fn process(self) -> (r: String) {
        self.0
    }
}

/// `AnyOf1` matches the longest run of characters out of the set handed in
/// as its argument, and fails when that run is empty.
#[derive(Debug, Clone, PartialEq)]
pub struct AnyOf1(pub String);

impl DeepView for AnyOf1 {
    type V = Seq<char>;

    open spec fn deep_view(&self) -> Seq<char> {
        self.0@
    }
}

impl Parse<char> for AnyOf1 {
    type Args = Vec<char>;

    open spec fn spec_parse(args: Vec<char>, s: Seq<char>) -> Option<(Seq<char>, int)> {
        if match_len(in_set(args@), s) == 0 {
            None
        } else {
            Some((s.take(match_len(in_set(args@), s)), match_len(in_set(args@), s)))
        }
    }

    proof fn lemma_parse_length(args: Vec<char>, s: Seq<char>) {
        crate::lemma_match_len(in_set(args@), s);
    }

    fn parse(cur: &mut Cursor, buf: &mut Buf<char>, args: &Vec<char>) -> (r: Result<
        Self,
        ParseError,
    >) {
        proof {
            crate::lemma_match_len(in_set(args@), old(buf)@.skip(old(cur).abs()));
        }
        match AnyOf::parse(cur, buf, args) {
            Ok(run) => {
                if run.0.as_str().is_empty() {
                    Err(ParseError::NoCharactersFound)
                } else {
                    Ok(AnyOf1(run.0))
                }
            },
            Err(e) => Err(e),
        }
    }

    fn peek(cur: &mut Cursor, buf: &mut Buf<char>, args: &Vec<char>) -> (r: bool) {
        Self::parse(cur, buf, args).is_ok()
    }
}

impl Process for AnyOf1 {
    type Output = String;

    open spec fn spec_process(v: Seq<char>) -> Seq<char> {
        v
    }

    fn process(self) -> (r: String) {
        self.0
    }
}

/// `WhileNot1` matches the longest run of characters that stay outside the
/// set handed in as its argument, and fails when that run is empty.
#[derive(Debug, Clone, PartialEq)]
pub struct WhileNot1(pub String);

impl DeepView for WhileNot1 {
    type V = Seq<char>;

    open spec fn deep_view(&self) -> Seq<char> {
        self.0@
    }
}

impl Parse<char> for WhileNot1 {
    type Args = Vec<char>;

    open spec fn spec_parse(args: Vec<char>, s: Seq<char>) -> Option<(Seq<char>, int)> {
        if match_len(out_of_set(args@), s) == 0 {
            None
        } else {
            Some((s.take(match_len(out_of_set(args@), s)), match_len(out_of_set(args@), s)))
        }
    }

    proof fn lemma_parse_length(args: Vec<char>, s: Seq<char>) {
        crate::lemma_match_len(out_of_set(args@), s);
    }

    fn parse(cur: &mut Cursor, buf: &mut Buf<char>, args: &Vec<char>) -> (r: Result<
        Self,
        ParseError,
    >) {
        let ghost s = old(buf)@.skip(old(cur).abs());
        let ghost p = out_of_set(args@);
        let mut output = String::new();
        let ghost mut k: int = 0;
        loop
            invariant
                buf.wf(),
                buf@ == old(buf)@,
                cur.spec_base() == old(cur).spec_base(),
                cur.valid(buf@.len() as int),
                s == buf@.skip(old(cur).abs()),
                p == out_of_set(args@),
                0 <= k <= s.len(),
                cur.spec_index() == old(cur).spec_index() + k,
                output@ == s.take(k),
                forall|i: int| 0 <= i < k ==> p(s[i]),
            ensures
                match_len(p, s) == k,
                output@ == s.take(k),
                cur.spec_index() == old(cur).spec_index() + k,
                buf.wf(),
                buf@ == old(buf)@,
                cur.spec_base() == old(cur).spec_base(),
                cur.valid(buf@.len() as int),
            decreases s.len() - k,
        {
            proof {
                lemma_buf_len_bounded(buf);
            }
            let mut child = cur.cursor();
            proof {
                assert(buf@.skip(child.abs()) =~= s.skip(k));
            }
            if OneOf::peek(&mut child, buf, args) {
                proof {
                    lemma_match_len_is(p, s, k);
                }
                break ;
            }
            match cur.next(buf) {
                Some(c) => {
                    output.push(c);
                    proof {
                        k = k + 1;
                        assert(output@ =~= s.take(k));
                    }
                },
                None => {
                    proof {
                        lemma_match_len_is(p, s, k);
                    }
                    break ;
                },
            }
        }
        if output.as_str().is_empty() {
            Err(ParseError::NoCharactersFound)
        } else {
            Ok(WhileNot1(output))
        }
    }

    fn peek(cur: &mut Cursor, buf: &mut Buf<char>, args: &Vec<char>) -> (r: bool) {
        Self::parse(cur, buf, args).is_ok()
    }
}

impl Process for WhileNot1 {
    type Output = String;

    open spec fn spec_process(v: Seq<char>) -> Seq<char> {
        v
    }

    fn process(self) -> (r: String) {
        self.0
    }
}

/// `AnyInRange` matches the longest run, possibly empty, of characters
/// between the two bounds handed in as its argument, both inclusive.
#[derive(Debug, Clone, PartialEq)]
pub struct AnyInRange(pub String);

impl DeepView for AnyInRange {
    type V = Seq<char>;

    open spec fn deep_view(&self) -> Seq<char> {
        self.0@
    }
}

impl Parse<char> for AnyInRange {
    type Args = (char, char);

    open spec fn spec_parse(args: (char, char), s: Seq<char>) -> Option<(Seq<char>, int)> {
        Some(
            (
                s.take(match_len(in_range(args.0, args.1), s)),
                match_len(in_range(args.0, args.1), s),
            ),
        )
    }

    proof fn lemma_parse_length(args: (char, char), s: Seq<char>) {
        crate::lemma_match_len(in_range(args.0, args.1), s);
    }

    fn parse(cur: &mut Cursor, buf: &mut Buf<char>, args: &(char, char)) -> (r: Result<
        Self,
        ParseError,
    >) {
        let ghost s = old(buf)@.skip(old(cur).abs());
        let ghost p = in_range(args.0, args.1);
        let mut output = String::new();
        let ghost mut k: int = 0;
        loop
            invariant
                buf.wf(),
                buf@ == old(buf)@,
                cur.spec_base() == old(cur).spec_base(),
                cur.valid(buf@.len() as int),
                s == buf@.skip(old(cur).abs()),
                p == in_range(args.0, args.1),
                0 <= k <= s.len(),
                cur.spec_index() == old(cur).spec_index() + k,
                output@ == s.take(k),
                forall|i: int| 0 <= i < k ==> p(s[i]),
            ensures
                match_len(p, s) == k,
                output@ == s.take(k),
                cur.spec_index() == old(cur).spec_index() + k,
                buf.wf(),
                buf@ == old(buf)@,
                cur.spec_base() == old(cur).spec_base(),
                cur.valid(buf@.len() as int),
            decreases s.len() - k,
        {
            proof {
                lemma_buf_len_bounded(buf);
            }
            let mut child = cur.cursor();
            match child.next(buf) {
                Some(c) => {
                    if args.0 as u32 <= c as u32 && c as u32 <= args.1 as u32 {
                        output.push(c);
                        proof {
                            lemma_buf_len_bounded(buf);
                        }
                        cur.fast_forward(1);
                        proof {
                            k = k + 1;
                            assert(output@ =~= s.take(k));
                        }
                    } else {
                        proof {
                            lemma_match_len_is(p, s, k);
                        }
                        break ;
                    }
                },
                None => {
                    proof {
                        lemma_match_len_is(p, s, k);
                    }
                    break ;
                },
            }
        }
        Ok(AnyInRange(output))
    }

    fn peek(cur: &mut Cursor, buf: &mut Buf<char>, args: &(char, char)) -> (r: bool) {
        Self::parse(cur, buf, args).is_ok()
    }
}

impl Process for AnyInRange {
    type Output = String;

    open spec fn spec_process(v: Seq<char>) -> Seq<char> {
        v
    }

    fn process(self) -> (r: String) {
        self.0
    }
}

} // verus!
