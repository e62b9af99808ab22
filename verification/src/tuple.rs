//! [`Parse`] over tuples: each element type parses in declared order, and a
//! failing element's error is wrapped with its one-based term position.

use vstd::prelude::*;

use crate::Parse;
use crate::Process;
use crate::buffer::Buf;
use crate::buffer::Buffer;
use crate::buffer::Cursor;
use crate::error::ParseError;

verus! {

impl<T: Copy, A: Parse<T>, B: Parse<T>> Parse<T> for (A, B) {
    type Args = (A::Args, B::Args);

    open spec fn spec_parse(args: (A::Args, B::Args), s: Seq<T>) -> Option<((A::V, B::V), int)> {
        match A::spec_parse(args.0, s) {
            None => None,
            Some((a, n1)) => match B::spec_parse(args.1, s.skip(n1)) {
                None => None,
                Some((b, n2)) => Some(((a, b), n1 + n2)),
            },
        }
    }

    proof fn lemma_parse_length(args: (A::Args, B::Args), s: Seq<T>) {
        A::lemma_parse_length(args.0, s);
        match A::spec_parse(args.0, s) {
            None => {},
            Some((a, n1)) => {
                B::lemma_parse_length(args.1, s.skip(n1));
            },
        }
    }

    fn parse(cur: &mut Cursor, buf: &mut Buf<T>, args: &(A::Args, B::Args)) -> (r: Result<
        Self,
        ParseError,
    >) {
        let ghost s = old(buf)@.skip(old(cur).abs());
        let a = match A::parse(cur, buf, &args.0) {
            Ok(a) => a,
            Err(e) => {
                return Err(ParseError::Term { index: 1, inner: Box::new(e) });
            },
        };
        proof {
            A::lemma_parse_length(args.0, s);
            assert(buf@.skip(cur.abs()) =~= s.skip(cur.spec_index() - old(cur).spec_index()));
        }
        let b = match B::parse(cur, buf, &args.1) {
            Ok(b) => b,
            Err(e) => {
                return Err(ParseError::Term { index: 2, inner: Box::new(e) });
            },
        };
        Ok((a, b))
    }

    fn peek(cur: &mut Cursor, buf: &mut Buf<T>, args: &(A::Args, B::Args)) -> (r: bool) {
        Self::parse(cur, buf, args).is_ok()
    }
}

impl<A: Process, B: Process> Process for (A, B) {
    type Output = (A::Output, B::Output);

    open spec fn spec_process(v: (A::V, B::V)) -> (
        <A::Output as DeepView>::V,
        <B::Output as DeepView>::V,
    ) {
        (A::spec_process(v.0), B::spec_process(v.1))
    }

    fn process(self) -> (r: (A::Output, B::Output)) {
        (self.0.process(), self.1.process())
    }
}

impl<T: Copy, A: Parse<T>, B: Parse<T>, C: Parse<T>> Parse<T> for (A, B, C) {
    type Args = (A::Args, B::Args, C::Args);

    open spec fn spec_parse(args: (A::Args, B::Args, C::Args), s: Seq<T>) -> Option<
        ((A::V, B::V, C::V), int),
    > {
        match A::spec_parse(args.0, s) {
            None => None,
            Some((a, n1)) => match B::spec_parse(args.1, s.skip(n1)) {
                None => None,
                Some((b, n2)) => match C::spec_parse(args.2, s.skip(n1 + n2)) {
                    None => None,
                    Some((c, n3)) => Some(((a, b, c), n1 + n2 + n3)),
                },
            },
        }
    }

    proof fn lemma_parse_length(args: (A::Args, B::Args, C::Args), s: Seq<T>) {
        A::lemma_parse_length(args.0, s);
        match A::spec_parse(args.0, s) {
            None => {},
            Some((a, n1)) => {
                B::lemma_parse_length(args.1, s.skip(n1));
                match B::spec_parse(args.1, s.skip(n1)) {
                    None => {},
                    Some((b, n2)) => {
                        C::lemma_parse_length(args.2, s.skip(n1 + n2));
                        assert(s.skip(n1).skip(n2) =~= s.skip(n1 + n2));
                    },
                }
            },
        }
    }

    fn parse(cur: &mut Cursor, buf: &mut Buf<T>, args: &(A::Args, B::Args, C::Args)) -> (r: Result<
        Self,
        ParseError,
    >) {
        let ghost s = old(buf)@.skip(old(cur).abs());
        let a = match A::parse(cur, buf, &args.0) {
            Ok(a) => a,
            Err(e) => {
                return Err(ParseError::Term { index: 1, inner: Box::new(e) });
            },
        };
        proof {
            A::lemma_parse_length(args.0, s);
            assert(buf@.skip(cur.abs()) =~= s.skip(cur.spec_index() - old(cur).spec_index()));
        }
        let ghost n1 = cur.spec_index() - old(cur).spec_index();
        let b = match B::parse(cur, buf, &args.1) {
            Ok(b) => b,
            Err(e) => {
                return Err(ParseError::Term { index: 2, inner: Box::new(e) });
            },
        };
        proof {
            B::lemma_parse_length(args.1, s.skip(n1));
            assert(s.skip(n1).skip(cur.spec_index() - old(cur).spec_index() - n1) =~= s.skip(
                cur.spec_index() - old(cur).spec_index(),
            ));
            assert(buf@.skip(cur.abs()) =~= s.skip(cur.spec_index() - old(cur).spec_index()));
        }
        let c = match C::parse(cur, buf, &args.2) {
            Ok(c) => c,
            Err(e) => {
                return Err(ParseError::Term { index: 3, inner: Box::new(e) });
            },
        };
        Ok((a, b, c))
    }

    fn peek(cur: &mut Cursor, buf: &mut Buf<T>, args: &(A::Args, B::Args, C::Args)) -> (r: bool) {
        Self::parse(cur, buf, args).is_ok()
    }
}

impl<A: Process, B: Process, C: Process> Process for (A, B, C) {
    type Output = (A::Output, B::Output, C::Output);

    open spec fn spec_process(v: (A::V, B::V, C::V)) -> (
        <A::Output as DeepView>::V,
        <B::Output as DeepView>::V,
        <C::Output as DeepView>::V,
    ) {
        (A::spec_process(v.0), B::spec_process(v.1), C::spec_process(v.2))
    }

    fn process(self) -> (r: (A::Output, B::Output, C::Output)) {
        (self.0.process(), self.1.process(), self.2.process())
    }
}

impl<T: Copy, A: Parse<T>, B: Parse<T>, C: Parse<T>, D: Parse<T>> Parse<T> for (A, B, C, D) {
    type Args = (A::Args, B::Args, C::Args, D::Args);

    open spec fn spec_parse(args: (A::Args, B::Args, C::Args, D::Args), s: Seq<T>) -> Option<
        ((A::V, B::V, C::V, D::V), int),
    > {
        match A::spec_parse(args.0, s) {
            None => None,
            Some((a, n1)) => match B::spec_parse(args.1, s.skip(n1)) {
                None => None,
                Some((b, n2)) => match C::spec_parse(args.2, s.skip(n1 + n2)) {
                    None => None,
                    Some((c, n3)) => match D::spec_parse(args.3, s.skip(n1 + n2 + n3)) {
                        None => None,
                        Some((d, n4)) => Some(((a, b, c, d), n1 + n2 + n3 + n4)),
                    },
                },
            },
        }
    }

    proof fn lemma_parse_length(args: (A::Args, B::Args, C::Args, D::Args), s: Seq<T>) {
        A::lemma_parse_length(args.0, s);
        match A::spec_parse(args.0, s) {
            None => {},
            Some((a, n1)) => {
                B::lemma_parse_length(args.1, s.skip(n1));
                match B::spec_parse(args.1, s.skip(n1)) {
                    None => {},
                    Some((b, n2)) => {
                        C::lemma_parse_length(args.2, s.skip(n1 + n2));
                        assert(s.skip(n1).skip(n2) =~= s.skip(n1 + n2));
                        match C::spec_parse(args.2, s.skip(n1 + n2)) {
                            None => {},
                            Some((c, n3)) => {
                                D::lemma_parse_length(args.3, s.skip(n1 + n2 + n3));
                                assert(s.skip(n1 + n2).skip(n3) =~= s.skip(n1 + n2 + n3));
                            },
                        }
                    },
                }
            },
        }
    }

    fn parse(
        cur: &mut Cursor,
        buf: &mut Buf<T>,
        args: &(A::Args, B::Args, C::Args, D::Args),
    ) -> (r: Result<Self, ParseError>) {
        let ghost s = old(buf)@.skip(old(cur).abs());
        let a = match A::parse(cur, buf, &args.0) {
            Ok(a) => a,
            Err(e) => {
                return Err(ParseError::Term { index: 1, inner: Box::new(e) });
            },
        };
        proof {
            A::lemma_parse_length(args.0, s);
            assert(buf@.skip(cur.abs()) =~= s.skip(cur.spec_index() - old(cur).spec_index()));
        }
        let ghost n1 = cur.spec_index() - old(cur).spec_index();
        let b = match B::parse(cur, buf, &args.1) {
            Ok(b) => b,
            Err(e) => {
                return Err(ParseError::Term { index: 2, inner: Box::new(e) });
            },
        };
        proof {
            B::lemma_parse_length(args.1, s.skip(n1));
            assert(s.skip(n1).skip(cur.spec_index() - old(cur).spec_index() - n1) =~= s.skip(
                cur.spec_index() - old(cur).spec_index(),
            ));
            assert(buf@.skip(cur.abs()) =~= s.skip(cur.spec_index() - old(cur).spec_index()));
        }
        let ghost n12 = cur.spec_index() - old(cur).spec_index();
        let c = match C::parse(cur, buf, &args.2) {
            Ok(c) => c,
            Err(e) => {
                return Err(ParseError::Term { index: 3, inner: Box::new(e) });
            },
        };
        proof {
            C::lemma_parse_length(args.2, s.skip(n12));
            assert(s.skip(n12).skip(cur.spec_index() - old(cur).spec_index() - n12) =~= s.skip(
                cur.spec_index() - old(cur).spec_index(),
            ));
            assert(buf@.skip(cur.abs()) =~= s.skip(cur.spec_index() - old(cur).spec_index()));
        }
        let d = match D::parse(cur, buf, &args.3) {
            Ok(d) => d,
            Err(e) => {
                return Err(ParseError::Term { index: 4, inner: Box::new(e) });
            },
        };
        Ok((a, b, c, d))
    }

    fn peek(
        cur: &mut Cursor,
        buf: &mut Buf<T>,
        args: &(A::Args, B::Args, C::Args, D::Args),
    ) -> (r: bool) {
        Self::parse(cur, buf, args).is_ok()
    }
}

impl<A: Process, B: Process, C: Process, D: Process> Process for (A, B, C, D) {
    type Output = (A::Output, B::Output, C::Output, D::Output);

    open spec fn spec_process(v: (A::V, B::V, C::V, D::V)) -> (
        <A::Output as DeepView>::V,
        <B::Output as DeepView>::V,
        <C::Output as DeepView>::V,
        <D::Output as DeepView>::V,
    ) {
        (A::spec_process(v.0), B::spec_process(v.1), C::spec_process(v.2), D::spec_process(v.3))
    }

    fn process(self) -> (r: (A::Output, B::Output, C::Output, D::Output)) {
        (self.0.process(), self.1.process(), self.2.process(), self.3.process())
    }
}

} // verus!
