//! Wrapper combinators: a body preceded, followed, or surrounded by other
//! matchers. A part's failure is wrapped with the name of the part that
//! failed.

use vstd::prelude::*;

use crate::Parse;
use crate::Process;
use crate::buffer::Buf;
use crate::buffer::Buffer;
use crate::buffer::Cursor;
use crate::error::ParseError;
use crate::error::PrefixedByParseError;

verus! {

/// Parses `Prefix` first, then `P`, keeping both.
#[derive(Debug, Clone, PartialEq)]
pub struct PrefixedBy<Prefix, P> {
    /// The parsed leading matcher.
    pub prefix: Prefix,
    /// The parsed body.
    pub parsed: P,
}

impl<Prefix: DeepView, P: DeepView> DeepView for PrefixedBy<Prefix, P> {
    type V = (Prefix::V, P::V);

    open spec fn deep_view(&self) -> (Prefix::V, P::V) {
        (self.prefix.deep_view(), self.parsed.deep_view())
    }
}

impl<T: Copy, Prefix: Parse<T>, P: Parse<T>> Parse<T> for PrefixedBy<Prefix, P> {
    type Args = (Prefix::Args, P::Args);

    open spec fn spec_parse(args: (Prefix::Args, P::Args), s: Seq<T>) -> Option<
        ((Prefix::V, P::V), int),
    > {
        match Prefix::spec_parse(args.0, s) {
            None => None,
            Some((pv, n1)) => match P::spec_parse(args.1, s.skip(n1)) {
                None => None,
                Some((v, n2)) => Some(((pv, v), n1 + n2)),
            },
        }
    }

    proof fn lemma_parse_length(args: (Prefix::Args, P::Args), s: Seq<T>) {
        Prefix::lemma_parse_length(args.0, s);
        match Prefix::spec_parse(args.0, s) {
            None => {},
            Some((pv, n1)) => {
                P::lemma_parse_length(args.1, s.skip(n1));
            },
        }
    }

    fn parse(cur: &mut Cursor, buf: &mut Buf<T>, args: &(Prefix::Args, P::Args)) -> (r: Result<
        Self,
        ParseError,
    >) {
        let ghost s = old(buf)@.skip(old(cur).abs());
        let prefix = match Prefix::parse(cur, buf, &args.0) {
            Ok(p) => p,
            Err(e) => {
                return Err(ParseError::Surrounded(PrefixedByParseError::Prefix(Box::new(e))));
            },
        };
        proof {
            Prefix::lemma_parse_length(args.0, s);
            assert(buf@.skip(cur.abs()) =~= s.skip(cur.spec_index() - old(cur).spec_index()));
        }
        let parsed = match P::parse(cur, buf, &args.1) {
            Ok(p) => p,
            Err(e) => {
                return Err(ParseError::Surrounded(PrefixedByParseError::Parsed(Box::new(e))));
            },
        };
        Ok(PrefixedBy { prefix, parsed })
    }

    fn peek(cur: &mut Cursor, buf: &mut Buf<T>, args: &(Prefix::Args, P::Args)) -> (r: bool) {
        Self::parse(cur, buf, args).is_ok()
    }
}

impl<Prefix, P: Process> Process for PrefixedBy<Prefix, P> where Prefix: DeepView {
    type Output = P::Output;

    open spec fn spec_process(v: (Prefix::V, P::V)) -> <P::Output as DeepView>::V {
        P::spec_process(v.1)
    }

    fn process(self) -> (r: P::Output) {
        self.parsed.process()
    }
}

/// Parses `P` first, then `Suffix`, keeping both.
#[derive(Debug, Clone, PartialEq)]
pub struct SuffixedBy<P, Suffix> {
    /// The parsed body.
    pub parsed: P,
    /// The parsed trailing matcher.
    pub suffix: Suffix,
}

impl<P: DeepView, Suffix: DeepView> DeepView for SuffixedBy<P, Suffix> {
    type V = (P::V, Suffix::V);

    open spec fn deep_view(&self) -> (P::V, Suffix::V) {
        (self.parsed.deep_view(), self.suffix.deep_view())
    }
}

impl<T: Copy, P: Parse<T>, Suffix: Parse<T>> Parse<T> for SuffixedBy<P, Suffix> {
    type Args = (P::Args, Suffix::Args);

    open spec fn spec_parse(args: (P::Args, Suffix::Args), s: Seq<T>) -> Option<
        ((P::V, Suffix::V), int),
    > {
        match P::spec_parse(args.0, s) {
            None => None,
            Some((v, n1)) => match Suffix::spec_parse(args.1, s.skip(n1)) {
                None => None,
                Some((sv, n2)) => Some(((v, sv), n1 + n2)),
            },
        }
    }

    proof fn lemma_parse_length(args: (P::Args, Suffix::Args), s: Seq<T>) {
        P::lemma_parse_length(args.0, s);
        match P::spec_parse(args.0, s) {
            None => {},
            Some((v, n1)) => {
                Suffix::lemma_parse_length(args.1, s.skip(n1));
            },
        }
    }

    fn parse(cur: &mut Cursor, buf: &mut Buf<T>, args: &(P::Args, Suffix::Args)) -> (r: Result<
        Self,
        ParseError,
    >) {
        let ghost s = old(buf)@.skip(old(cur).abs());
        let parsed = match P::parse(cur, buf, &args.0) {
            Ok(p) => p,
            Err(e) => {
                return Err(ParseError::Surrounded(PrefixedByParseError::Parsed(Box::new(e))));
            },
        };
        proof {
            P::lemma_parse_length(args.0, s);
            assert(buf@.skip(cur.abs()) =~= s.skip(cur.spec_index() - old(cur).spec_index()));
        }
        let suffix = match Suffix::parse(cur, buf, &args.1) {
            Ok(p) => p,
            Err(e) => {
                return Err(ParseError::Surrounded(PrefixedByParseError::Suffix(Box::new(e))));
            },
        };
        Ok(SuffixedBy { parsed, suffix })
    }

    fn peek(cur: &mut Cursor, buf: &mut Buf<T>, args: &(P::Args, Suffix::Args)) -> (r: bool) {
        Self::parse(cur, buf, args).is_ok()
    }
}

impl<P: Process, Suffix> Process for SuffixedBy<P, Suffix> where Suffix: DeepView {
    type Output = P::Output;

    open spec fn spec_process(v: (P::V, Suffix::V)) -> <P::Output as DeepView>::V {
        P::spec_process(v.0)
    }

    fn process(self) -> (r: P::Output) {
        self.parsed.process()
    }
}

/// Parses `Prefix`, then `P`, then `Suffix`, keeping all three.
#[derive(Debug, Clone, PartialEq)]
pub struct SurroundedBy<Prefix, P, Suffix> {
    /// The parsed leading matcher.
    pub prefix: Prefix,
    /// The parsed body.
    pub parsed: P,
    /// The parsed trailing matcher.
    pub suffix: Suffix,
}

impl<Prefix: DeepView, P: DeepView, Suffix: DeepView> DeepView for SurroundedBy<Prefix, P, Suffix> {
    type V = (Prefix::V, P::V, Suffix::V);

    open spec fn deep_view(&self) -> (Prefix::V, P::V, Suffix::V) {
        (self.prefix.deep_view(), self.parsed.deep_view(), self.suffix.deep_view())
    }
}

impl<T: Copy, Prefix: Parse<T>, P: Parse<T>, Suffix: Parse<T>> Parse<T> for SurroundedBy<
    Prefix,
    P,
    Suffix,
> {
    type Args = (Prefix::Args, P::Args, Suffix::Args);

    open spec fn spec_parse(args: (Prefix::Args, P::Args, Suffix::Args), s: Seq<T>) -> Option<
        ((Prefix::V, P::V, Suffix::V), int),
    > {
        match Prefix::spec_parse(args.0, s) {
            None => None,
            Some((pv, n1)) => match P::spec_parse(args.1, s.skip(n1)) {
                None => None,
                Some((v, n2)) => match Suffix::spec_parse(args.2, s.skip(n1 + n2)) {
                    None => None,
                    Some((sv, n3)) => Some(((pv, v, sv), n1 + n2 + n3)),
                },
            },
        }
    }

    proof fn lemma_parse_length(args: (Prefix::Args, P::Args, Suffix::Args), s: Seq<T>) {
        Prefix::lemma_parse_length(args.0, s);
        match Prefix::spec_parse(args.0, s) {
            None => {},
            Some((pv, n1)) => {
                P::lemma_parse_length(args.1, s.skip(n1));
                match P::spec_parse(args.1, s.skip(n1)) {
                    None => {},
                    Some((v, n2)) => {
                        Suffix::lemma_parse_length(args.2, s.skip(n1 + n2));
                        assert(s.skip(n1).skip(n2) =~= s.skip(n1 + n2));
                    },
                }
            },
        }
    }

    fn parse(
        cur: &mut Cursor,
        buf: &mut Buf<T>,
        args: &(Prefix::Args, P::Args, Suffix::Args),
    ) -> (r: Result<Self, ParseError>) {
        let ghost s = old(buf)@.skip(old(cur).abs());
        let prefix = match Prefix::parse(cur, buf, &args.0) {
            Ok(p) => p,
            Err(e) => {
                return Err(ParseError::Surrounded(PrefixedByParseError::Prefix(Box::new(e))));
            },
        };
        proof {
            Prefix::lemma_parse_length(args.0, s);
            assert(buf@.skip(cur.abs()) =~= s.skip(cur.spec_index() - old(cur).spec_index()));
        }
        let ghost n1 = cur.spec_index() - old(cur).spec_index();
        let parsed = match P::parse(cur, buf, &args.1) {
            Ok(p) => p,
            Err(e) => {
                return Err(ParseError::Surrounded(PrefixedByParseError::Parsed(Box::new(e))));
            },
        };
        proof {
            P::lemma_parse_length(args.1, s.skip(n1));
            assert(s.skip(n1).skip(cur.spec_index() - old(cur).spec_index() - n1) =~= s.skip(
                cur.spec_index() - old(cur).spec_index(),
            ));
            assert(buf@.skip(cur.abs()) =~= s.skip(cur.spec_index() - old(cur).spec_index()));
        }
        let suffix = match Suffix::parse(cur, buf, &args.2) {
            Ok(p) => p,
            Err(e) => {
                return Err(ParseError::Surrounded(PrefixedByParseError::Suffix(Box::new(e))));
            },
        };
        Ok(SurroundedBy { prefix, parsed, suffix })
    }

    fn peek(
        cur: &mut Cursor,
        buf: &mut Buf<T>,
        args: &(Prefix::Args, P::Args, Suffix::Args),
    ) -> (r: bool) {
        Self::parse(cur, buf, args).is_ok()
    }
}

impl<Prefix, P: Process, Suffix> Process for SurroundedBy<Prefix, P, Suffix> where
    Prefix: DeepView,
    Suffix: DeepView,
 {
    type Output = P::Output;

    open spec fn spec_process(v: (Prefix::V, P::V, Suffix::V)) -> <P::Output as DeepView>::V {
        P::spec_process(v.1)
    }

    fn process(self) -> (r: P::Output) {
        self.parsed.process()
    }
}

} // verus!
