//! Implementations of [`Parse`] for structural std types: `Option<P>`,
//! `Vec<P>`, `Box<P>`, and the non-empty list [`Vec1`].

use vstd::prelude::*;

use crate::Parse;
use crate::buffer::Buf;
use crate::buffer::Buffer;
use crate::buffer::Cursor;
use crate::error::ParseError;
use crate::lemma_buf_len_bounded;
use crate::vec::VecArgs;
use crate::vec::spec_max_bound;

verus! {

/// Absence is a valid outcome: `Option<P>` yields `Some` when `P` matches
/// after consuming at least one token, `None`, consuming nothing, when `P`
/// fails, and reports a contract violation when `P` matches zero tokens.
impl<T: Copy, P: Parse<T>> Parse<T> for Option<P> {
    type Args = P::Args;

    open spec fn spec_parse(args: P::Args, s: Seq<T>) -> Option<(Option<P::V>, int)> {
        match P::spec_parse(args, s) {
            Some((v, n)) => if n == 0 {
                None
            } else {
                Some((Some(v), n))
            },
            None => Some((None, 0)),
        }
    }

    proof fn lemma_parse_length(args: P::Args, s: Seq<T>) {
        P::lemma_parse_length(args, s);
    }

    fn parse(cur: &mut Cursor, buf: &mut Buf<T>, args: &P::Args) -> (r: Result<
        Self,
        ParseError,
    >) {
        proof {
            lemma_buf_len_bounded(buf);
        }
        let mut child = cur.cursor();
        match P::parse(&mut child, buf, args) {
            Ok(p) => {
                let pos = child.position();
                if pos == 0 {
                    Err(ParseError::ZeroProgress)
                } else {
                    cur.fast_forward(pos);
                    Ok(Some(p))
                }
            },
            Err(_) => Ok(None),
        }
    }

    fn peek(cur: &mut Cursor, buf: &mut Buf<T>, args: &P::Args) -> (r: bool) {
        Self::parse(cur, buf, args).is_ok()
    }
}

/// The meaning of parsing `P` repeatedly, at most `max` times, each attempt
/// starting where the previous match ended: the collected values and the
/// total count of consumed tokens. `None` reports a sub-parser that matched
/// zero tokens, which a repetition must treat as a fatal contract violation
/// rather than loop forever.
pub open spec fn spec_parse_repeat<T: Copy, P: Parse<T>>(
    args: P::Args,
    s: Seq<T>,
    max: int,
) -> Option<(Seq<P::V>, int)>
    decreases max,
{
    if max <= 0 {
        Some((Seq::empty(), 0))
    } else {
        match P::spec_parse(args, s) {
            None => Some((Seq::empty(), 0)),
            Some((v, n)) => if n == 0 {
                None
            } else {
                match spec_parse_repeat::<T, P>(args, s.skip(n), max - 1) {
                    None => None,
                    Some((vs, m)) => Some((seq![v] + vs, n + m)),
                }
            },
        }
    }
}

/// A repetition consumes between `0` and `s.len()` tokens, and collects at
/// most `max` values.
pub proof fn lemma_parse_repeat_length<T: Copy, P: Parse<T>>(args: P::Args, s: Seq<T>, max: int)
    ensures
        spec_parse_repeat::<T, P>(args, s, max) matches Some((vs, m)) ==> 0 <= m <= s.len() && (max
            >= 0 ==> vs.len() <= max),
    decreases max,
{
    if max <= 0 {
    } else {
        match P::spec_parse(args, s) {
            None => {},
            Some((v, n)) => {
                P::lemma_parse_length(args, s);
                if n != 0 {
                    lemma_parse_repeat_length::<T, P>(args, s.skip(n), max - 1);
                }
            },
        }
    }
}

/// Repeatedly attempt `P` through a child cursor, committing each success,
/// until a failure, the bound `max`, or the end of input stops the run.
/// The collected values follow [`spec_parse_repeat`]; the only error is the
/// zero-progress contract violation.
fn parse_repeat_upto<T: Copy, P: Parse<T>>(
    cur: &mut Cursor,
    buf: &mut Buf<T>,
    pargs: &P::Args,
    max: usize,
) -> (r: Result<Vec<P>, ParseError>)
    requires
        old(buf).wf(),
        old(cur).valid(old(buf)@.len() as int),
    ensures
        final(buf).wf(),
        final(buf)@ == old(buf)@,
        final(cur).spec_base() == old(cur).spec_base(),
        final(cur).valid(old(buf)@.len() as int),
        match spec_parse_repeat::<T, P>(*pargs, old(buf)@.skip(old(cur).abs()), max as int) {
            Some((vs, m)) => r matches Ok(out) && out.deep_view() == vs && final(cur).spec_index()
                == old(cur).spec_index() + m,
            None => r matches Err(e) && e is ZeroProgress,
        },
{
    let ghost s = old(buf)@.skip(old(cur).abs());
    let mut output: Vec<P> = Vec::new();
    let ghost mut consumed: int = 0;
    proof {
        assert(s.skip(0) =~= s);
        assert(Seq::<P::V>::empty() + Seq::<P::V>::empty() =~= Seq::<P::V>::empty());
        assert(output.deep_view() =~= Seq::<P::V>::empty());
    }
    loop
        invariant
            buf.wf(),
            buf@ == old(buf)@,
            cur.spec_base() == old(cur).spec_base(),
            cur.valid(buf@.len() as int),
            s == buf@.skip(old(cur).abs()),
            0 <= consumed <= s.len(),
            cur.spec_index() == old(cur).spec_index() + consumed,
            output@.len() <= max,
            match spec_parse_repeat::<T, P>(*pargs, s.skip(consumed), max - output@.len()) {
                Some((vs, m)) => spec_parse_repeat::<T, P>(*pargs, s, max as int) == Some(
                    (output.deep_view() + vs, consumed + m),
                ),
                None => spec_parse_repeat::<T, P>(*pargs, s, max as int) is None,
            },
        ensures
            buf.wf(),
            buf@ == old(buf)@,
            cur.spec_base() == old(cur).spec_base(),
            cur.valid(buf@.len() as int),
            cur.spec_index() == old(cur).spec_index() + consumed,
            spec_parse_repeat::<T, P>(*pargs, s, max as int) == Some(
                (output.deep_view(), consumed),
            ),
        decreases max - output@.len(),
    {
        if output.len() == max {
            proof {
                assert(output.deep_view() + Seq::<P::V>::empty() =~= output.deep_view());
            }
            break ;
        }
        proof {
            lemma_buf_len_bounded(buf);
        }
        let mut child = cur.cursor();
        proof {
            assert(buf@.skip(child.abs()) =~= s.skip(consumed));
        }
        match P::parse(&mut child, buf, pargs) {
            Ok(p) => {
                let pos = child.position();
                if pos == 0 {
                    return Err(ParseError::ZeroProgress);
                }
                let ghost old_output = output;
                output.push(p);
                cur.fast_forward(pos);
                proof {
                    P::lemma_parse_length(*pargs, s.skip(consumed));
                    assert(s.skip(consumed).skip(pos as int) =~= s.skip(consumed + pos));
                    assert(output.deep_view() =~= old_output.deep_view().push(p.deep_view()));
                    consumed = consumed + pos;
                    match spec_parse_repeat::<T, P>(*pargs, s.skip(consumed), max - output@.len()) {
                        Some((vs, m)) => {
                            assert(old_output.deep_view() + (seq![p.deep_view()] + vs)
                                =~= output.deep_view() + vs);
                        },
                        None => {},
                    }
                }
            },
            Err(_) => {
                proof {
                    assert(output.deep_view() + Seq::<P::V>::empty() =~= output.deep_view());
                }
                break ;
            },
        }
    }
    Ok(output)
}

/// Repeatedly attempts to parse `P`; the result is every successful
/// attempt, never an input-rejection error. Fewer collected elements than
/// the configured minimum is an error, and a sub-parser that matches zero
/// tokens is reported as the zero-progress contract violation.
impl<T: Copy, P: Parse<T>> Parse<T> for Vec<P> {
    type Args = VecArgs<P::Args>;

    open spec fn spec_parse(args: VecArgs<P::Args>, s: Seq<T>) -> Option<(Seq<P::V>, int)> {
        match spec_parse_repeat::<T, P>(args.extra, s, spec_max_bound(args.max)) {
            None => None,
            Some((vs, m)) => if vs.len() < args.min {
                None
            } else {
                Some((vs, m))
            },
        }
    }

    proof fn lemma_parse_length(args: VecArgs<P::Args>, s: Seq<T>) {
        lemma_parse_repeat_length::<T, P>(args.extra, s, spec_max_bound(args.max));
    }

    fn parse(cur: &mut Cursor, buf: &mut Buf<T>, args: &VecArgs<P::Args>) -> (r: Result<
        Self,
        ParseError,
    >) {
        let max_val: usize = match args.max {
            Some(m) => m,
            None => usize::MAX,
        };
        match parse_repeat_upto::<T, P>(cur, buf, &args.extra, max_val) {
            Ok(output) => {
                if output.len() < args.min {
                    Err(ParseError::MinimumNotMet)
                } else {
                    Ok(output)
                }
            },
            Err(e) => Err(e),
        }
    }

    fn peek(cur: &mut Cursor, buf: &mut Buf<T>, args: &VecArgs<P::Args>) -> (r: bool) {
        Self::parse(cur, buf, args).is_ok()
    }
}

/// A non-empty list: like `Vec<P>`, but the first element must parse, and
/// its failure is propagated as a hard error.
#[derive(Debug, Clone, PartialEq)]
pub struct Vec1<P>(pub Vec<P>);

impl<P: DeepView> DeepView for Vec1<P> {
    type V = Seq<P::V>;

    open spec fn deep_view(&self) -> Seq<P::V> {
        self.0.deep_view()
    }
}

impl<T: Copy, P: Parse<T>> Parse<T> for Vec1<P> {
    type Args = VecArgs<P::Args>;

    open spec fn spec_parse(args: VecArgs<P::Args>, s: Seq<T>) -> Option<(Seq<P::V>, int)> {
        if spec_max_bound(args.max) < 1 {
            None
        } else {
            match P::spec_parse(args.extra, s) {
                None => None,
                Some((v, n)) => if n == 0 {
                    None
                } else {
                    match spec_parse_repeat::<T, P>(
                        args.extra,
                        s.skip(n),
                        spec_max_bound(args.max) - 1,
                    ) {
                        None => None,
                        Some((vs, m)) => if 1 + vs.len() < args.min {
                            None
                        } else {
                            Some((seq![v] + vs, n + m))
                        },
                    }
                },
            }
        }
    }

    proof fn lemma_parse_length(args: VecArgs<P::Args>, s: Seq<T>) {
        P::lemma_parse_length(args.extra, s);
        match P::spec_parse(args.extra, s) {
            Some((v, n)) => {
                lemma_parse_repeat_length::<T, P>(
                    args.extra,
                    s.skip(n),
                    spec_max_bound(args.max) - 1,
                );
            },
            None => {},
        }
    }

    fn parse(cur: &mut Cursor, buf: &mut Buf<T>, args: &VecArgs<P::Args>) -> (r: Result<
        Self,
        ParseError,
    >) {
        let max_val: usize = match args.max {
            Some(m) => m,
            None => usize::MAX,
        };
        if max_val == 0 {
            return Err(ParseError::MinimumNotMet);
        }
        proof {
            lemma_buf_len_bounded(buf);
        }
        let ghost s = old(buf)@.skip(old(cur).abs());
        let mut child = cur.cursor();
        let first = match P::parse(&mut child, buf, &args.extra) {
            Ok(p) => p,
            Err(e) => {
                return Err(e);
            },
        };
        let pos = child.position();
        if pos == 0 {
            return Err(ParseError::ZeroProgress);
        }
        cur.fast_forward(pos);
        proof {
            P::lemma_parse_length(args.extra, s);
            assert(buf@.skip(cur.abs()) =~= s.skip(pos as int));
        }
        match parse_repeat_upto::<T, P>(cur, buf, &args.extra, max_val - 1) {
            Ok(mut rest) => {
                proof {
                    lemma_parse_repeat_length::<T, P>(
                        args.extra,
                        s.skip(pos as int),
                        (max_val - 1) as int,
                    );
                }
                if 1 + rest.len() < args.min {
                    Err(ParseError::MinimumNotMet)
                } else {
                    let ghost first_view = first.deep_view();
                    let ghost rest_view = rest.deep_view();
                    let mut output: Vec<P> = Vec::new();
                    output.push(first);
                    proof {
                        assert(output.deep_view() =~= seq![first_view]);
                    }
                    let ghost one_view = output.deep_view();
                    output.append(&mut rest);
                    proof {
                        assert(output.deep_view() =~= one_view + rest_view);
                    }
                    Ok(Vec1(output))
                }
            },
            Err(e) => Err(e),
        }
    }

    fn peek(cur: &mut Cursor, buf: &mut Buf<T>, args: &VecArgs<P::Args>) -> (r: bool) {
        Self::parse(cur, buf, args).is_ok()
    }
}

/// Fixed arity: parse `P` exactly three times, sharing one argument value;
/// any element's failure aborts the whole array with that failure, wrapped
/// with the one-based position of the failing element. Safe code builds an
/// array as a literal of its exact length, so each arity needs an impl of
/// its own; three stands here for the fixed-arity form of the protocol.
impl<T: Copy, P: Parse<T>> Parse<T> for [P; 3] {
    type Args = P::Args;

    open spec fn spec_parse(args: P::Args, s: Seq<T>) -> Option<(Seq<P::V>, int)> {
        match P::spec_parse(args, s) {
            None => None,
            Some((a, n1)) => match P::spec_parse(args, s.skip(n1)) {
                None => None,
                Some((b, n2)) => match P::spec_parse(args, s.skip(n1 + n2)) {
                    None => None,
                    Some((c, n3)) => Some((seq![a, b, c], n1 + n2 + n3)),
                },
            },
        }
    }

    proof fn lemma_parse_length(args: P::Args, s: Seq<T>) {
        P::lemma_parse_length(args, s);
        match P::spec_parse(args, s) {
            None => {},
            Some((a, n1)) => {
                P::lemma_parse_length(args, s.skip(n1));
                match P::spec_parse(args, s.skip(n1)) {
                    None => {},
                    Some((b, n2)) => {
                        P::lemma_parse_length(args, s.skip(n1 + n2));
                        assert(s.skip(n1).skip(n2) =~= s.skip(n1 + n2));
                    },
                }
            },
        }
    }

    fn parse(cur: &mut Cursor, buf: &mut Buf<T>, args: &P::Args) -> (r: Result<
        Self,
        ParseError,
    >) {
        let ghost s = old(buf)@.skip(old(cur).abs());
        let a = match P::parse(cur, buf, args) {
            Ok(a) => a,
            Err(e) => {
                return Err(ParseError::Term { index: 1, inner: Box::new(e) });
            },
        };
        proof {
            P::lemma_parse_length(*args, s);
            assert(buf@.skip(cur.abs()) =~= s.skip(cur.spec_index() - old(cur).spec_index()));
        }
        let ghost n1 = cur.spec_index() - old(cur).spec_index();
        let b = match P::parse(cur, buf, args) {
            Ok(b) => b,
            Err(e) => {
                return Err(ParseError::Term { index: 2, inner: Box::new(e) });
            },
        };
        proof {
            P::lemma_parse_length(*args, s.skip(n1));
            assert(s.skip(n1).skip(cur.spec_index() - old(cur).spec_index() - n1) =~= s.skip(
                cur.spec_index() - old(cur).spec_index(),
            ));
            assert(buf@.skip(cur.abs()) =~= s.skip(cur.spec_index() - old(cur).spec_index()));
        }
        let c = match P::parse(cur, buf, args) {
            Ok(c) => c,
            Err(e) => {
                return Err(ParseError::Term { index: 3, inner: Box::new(e) });
            },
        };
        let out = [a, b, c];
        proof {
            assert(out.deep_view() =~= seq![
                out[0].deep_view(),
                out[1].deep_view(),
                out[2].deep_view(),
            ]);
        }
        Ok(out)
    }

    fn peek(cur: &mut Cursor, buf: &mut Buf<T>, args: &P::Args) -> (r: bool) {
        Self::parse(cur, buf, args).is_ok()
    }
}

/// Parse behind a pointer: `Box<P>` parses exactly as `P` does.
impl<T: Copy, P: Parse<T>> Parse<T> for Box<P> {
    type Args = P::Args;

    open spec fn spec_parse(args: P::Args, s: Seq<T>) -> Option<(P::V, int)> {
        P::spec_parse(args, s)
    }

    proof fn lemma_parse_length(args: P::Args, s: Seq<T>) {
        P::lemma_parse_length(args, s);
    }

    fn parse(cur: &mut Cursor, buf: &mut Buf<T>, args: &P::Args) -> (r: Result<
        Self,
        ParseError,
    >) {
        match P::parse(cur, buf, args) {
            Ok(p) => Ok(Box::new(p)),
            Err(e) => Err(e),
        }
    }

    fn peek(cur: &mut Cursor, buf: &mut Buf<T>, args: &P::Args) -> (r: bool) {
        P::peek(cur, buf, args)
    }
}

} // verus!
