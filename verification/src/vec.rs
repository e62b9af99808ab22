//! The separated, bounded list combinator and its configuration.

use vstd::prelude::*;

use crate::Parse;
use crate::Process;
use crate::buffer::Buf;
use crate::buffer::Buffer;
use crate::buffer::Cursor;
use crate::error::ParseError;
use crate::lemma_buf_len_bounded;

verus! {

/// The rule for a separator after the last element of a list.
#[derive(Debug, Copy, Clone, PartialEq, Eq, Structural)]
pub enum Trailing {
    /// A separator after the last element is not consumed: the list stops
    /// as soon as no further separator-and-element pair can be found.
    Forbidden,
    /// Every element, the last included, must be followed by a separator; a
    /// dangling final element without one is an error.
    Required,
    /// A single separator after the last element is consumed when present.
    Optional,
}

impl Default for Trailing {
    fn default() -> (r: Self)
        ensures
            r == Trailing::Forbidden,
    {
        Trailing::Forbidden
    }
}

/// The configuration of the repetition combinators: how many elements must
/// and may be collected, the trailing-separator rule, and the arguments
/// handed on to each element parse.
#[derive(Debug, Copy, Clone)]
pub struct VecArgs<PArgs> {
    /// The least number of elements that must parse.
    pub min: usize,
    /// Stop collecting once this many elements have parsed; `None` puts no
    /// bound on the count.
    pub max: Option<usize>,
    /// The trailing-separator rule, read by the separated list alone.
    pub trailing: Trailing,
    /// Arguments handed to each element parse.
    pub extra: PArgs,
}

impl<PArgs: Default> Default for VecArgs<PArgs> {
    fn default() -> (r: Self)
        ensures
            r.min == 0,
            r.max is None,
            r.trailing == Trailing::Forbidden,
    {
        VecArgs { min: 0, max: None, trailing: Trailing::Forbidden, extra: PArgs::default() }
    }
}

/// The element bound as a mathematical count: an explicit bound, or the
/// largest count a vector can hold when none was given.
pub open spec fn spec_max_bound(max: Option<usize>) -> int {
    match max {
        Some(m) => m as int,
        None => usize::MAX as int,
    }
}

/// The collected values after conversion by [`Process`].
pub open spec fn spec_processed<P: Process>(vs: Seq<P::V>) -> Seq<<P::Output as DeepView>::V> {
    vs.map_values(|v: P::V| P::spec_process(v))
}

/// The meaning of the list's continuation when a separator after the last
/// element is forbidden: up to `max` further rounds of separator then
/// element, stopping, with the separator unconsumed, as soon as no such
/// pair can be found. `None` reports a round that consumed no tokens.
pub open spec fn spec_parse_sep_tail<T: Copy, P: Parse<T>, S: Parse<T>>(
    pa: P::Args,
    sa: S::Args,
    s: Seq<T>,
    max: int,
) -> Option<(Seq<P::V>, int)>
    decreases max,
{
    if max <= 0 {
        Some((Seq::empty(), 0))
    } else {
        match S::spec_parse(sa, s) {
            None => Some((Seq::empty(), 0)),
            Some((sv, ns)) => match P::spec_parse(pa, s.skip(ns)) {
                None => Some((Seq::empty(), 0)),
                Some((v, np)) => if ns + np == 0 {
                    None
                } else {
                    match spec_parse_sep_tail::<T, P, S>(pa, sa, s.skip(ns + np), max - 1) {
                        None => None,
                        Some((vs, m)) => Some((seq![v] + vs, ns + np + m)),
                    }
                },
            },
        }
    }
}

/// The continuation consumes between `0` and `s.len()` tokens and collects
/// at most `max` values.
pub proof fn lemma_parse_sep_tail_length<T: Copy, P: Parse<T>, S: Parse<T>>(
    pa: P::Args,
    sa: S::Args,
    s: Seq<T>,
    max: int,
)
    ensures
        spec_parse_sep_tail::<T, P, S>(pa, sa, s, max) matches Some((vs, m)) ==> 0 <= m <= s.len()
            && (max >= 0 ==> vs.len() <= max),
    decreases max,
{
    if max <= 0 {
    } else {
        match S::spec_parse(sa, s) {
            None => {},
            Some((sv, ns)) => {
                S::lemma_parse_length(sa, s);
                match P::spec_parse(pa, s.skip(ns)) {
                    None => {},
                    Some((v, np)) => {
                        P::lemma_parse_length(pa, s.skip(ns));
                        if ns + np != 0 {
                            lemma_parse_sep_tail_length::<T, P, S>(pa, sa, s.skip(ns + np), max
                                - 1);
                        }
                    },
                }
            },
        }
    }
}

/// The meaning of the list when every element must be followed by a
/// separator: up to `max` rounds of element then separator; an element
/// without a following separator is a hard failure. `None` reports that
/// failure or a round that consumed no tokens.
pub open spec fn spec_parse_req<T: Copy, P: Parse<T>, S: Parse<T>>(
    pa: P::Args,
    sa: S::Args,
    s: Seq<T>,
    max: int,
) -> Option<(Seq<P::V>, int)>
    decreases max,
{
    if max <= 0 {
        Some((Seq::empty(), 0))
    } else {
        match P::spec_parse(pa, s) {
            None => Some((Seq::empty(), 0)),
            Some((v, np)) => match S::spec_parse(sa, s.skip(np)) {
                None => None,
                Some((sv, ns)) => if np + ns == 0 {
                    None
                } else {
                    match spec_parse_req::<T, P, S>(pa, sa, s.skip(np + ns), max - 1) {
                        None => None,
                        Some((vs, m)) => Some((seq![v] + vs, np + ns + m)),
                    }
                },
            },
        }
    }
}

/// The required-separator list consumes between `0` and `s.len()` tokens
/// and collects at most `max` values.
pub proof fn lemma_parse_req_length<T: Copy, P: Parse<T>, S: Parse<T>>(
    pa: P::Args,
    sa: S::Args,
    s: Seq<T>,
    max: int,
)
    ensures
        spec_parse_req::<T, P, S>(pa, sa, s, max) matches Some((vs, m)) ==> 0 <= m <= s.len() && (
        max >= 0 ==> vs.len() <= max),
    decreases max,
{
    if max <= 0 {
    } else {
        match P::spec_parse(pa, s) {
            None => {},
            Some((v, np)) => {
                P::lemma_parse_length(pa, s);
                match S::spec_parse(sa, s.skip(np)) {
                    None => {},
                    Some((sv, ns)) => {
                        S::lemma_parse_length(sa, s.skip(np));
                        if np + ns != 0 {
                            lemma_parse_req_length::<T, P, S>(pa, sa, s.skip(np + ns), max - 1);
                        }
                    },
                }
            },
        }
    }
}

/// Parses `P` into `Q` through [`Process`], repeatedly, separated by
/// `SeperatedBy`, under the bounds and trailing-separator rule of its
/// [`VecArgs`].
#[derive(Debug)]
pub struct VecSeperated<P, Q, SeperatedBy>(
    pub Vec<Q>,
    pub core::marker::PhantomData<(P, SeperatedBy)>,
);

impl<P, Q: DeepView, S> DeepView for VecSeperated<P, Q, S> {
    type V = Seq<Q::V>;

    open spec fn deep_view(&self) -> Seq<Q::V> {
        self.0.deep_view()
    }
}

impl<P, Q: DeepView, S> From<VecSeperated<P, Q, S>> for Vec<Q> {
    /// Hand out the collected elements.
    fn from(v: VecSeperated<P, Q, S>) -> (r: Vec<Q>) {
        v.0
    }
}

impl<P, Q: DeepView, S> vstd::std_specs::convert::FromSpecImpl<VecSeperated<P, Q, S>> for Vec<Q> {
    open spec fn obeys_from_spec() -> bool {
        true
    }

    open spec fn from_spec(v: VecSeperated<P, Q, S>) -> Vec<Q> {
        v.0
    }
}

impl<
    T: Copy,
    P: Parse<T> + Process<Output = Q>,
    Q: DeepView,
    S: Parse<T>,
> Parse<T> for VecSeperated<P, Q, S> {
    type Args = VecArgs<(P::Args, S::Args)>;

    open spec fn spec_parse(args: VecArgs<(P::Args, S::Args)>, s: Seq<T>) -> Option<
        (Seq<Q::V>, int),
    > {
        let maxi = spec_max_bound(args.max);
        let pa = args.extra.0;
        let sa = args.extra.1;
        if args.min > maxi {
            None
        } else if args.trailing is Required {
            match spec_parse_req::<T, P, S>(pa, sa, s, maxi) {
                None => None,
                Some((vs, m)) => if vs.len() < args.min {
                    None
                } else {
                    Some((spec_processed::<P>(vs), m))
                },
            }
        } else if maxi == 0 {
            Some((Seq::empty(), 0))
        } else {
            match P::spec_parse(pa, s) {
                None => if args.min == 0 {
                    Some((Seq::empty(), 0))
                } else {
                    None
                },
                Some((v, np)) => if np == 0 {
                    None
                } else {
                    match spec_parse_sep_tail::<T, P, S>(pa, sa, s.skip(np), maxi - 1) {
                        None => None,
                        Some((vs, m)) => {
                            let all = seq![v] + vs;
                            let consumed = np + m;
                            if all.len() < args.min {
                                None
                            } else if args.trailing is Optional && all.len() < maxi {
                                match S::spec_parse(sa, s.skip(consumed)) {
                                    Some((sv, ns)) => Some(
                                        (spec_processed::<P>(all), consumed + ns),
                                    ),
                                    None => Some((spec_processed::<P>(all), consumed)),
                                }
                            } else {
                                Some((spec_processed::<P>(all), consumed))
                            }
                        },
                    }
                },
            }
        }
    }

    proof fn lemma_parse_length(args: VecArgs<(P::Args, S::Args)>, s: Seq<T>) {
        let maxi = spec_max_bound(args.max);
        let pa = args.extra.0;
        let sa = args.extra.1;
        lemma_parse_req_length::<T, P, S>(pa, sa, s, maxi);
        P::lemma_parse_length(pa, s);
        match P::spec_parse(pa, s) {
            None => {},
            Some((v, np)) => {
                lemma_parse_sep_tail_length::<T, P, S>(pa, sa, s.skip(np), maxi - 1);
                match spec_parse_sep_tail::<T, P, S>(pa, sa, s.skip(np), maxi - 1) {
                    None => {},
                    Some((vs, m)) => {
                        S::lemma_parse_length(sa, s.skip(np + m));
                    },
                }
            },
        }
    }

    fn parse(cur: &mut Cursor, buf: &mut Buf<T>, args: &VecArgs<(P::Args, S::Args)>) -> (r: Result<
        Self,
        ParseError,
    >) {
        let max_val: usize = match args.max {
            Some(m) => m,
            None => usize::MAX,
        };
        if args.min > max_val {
            return Err(ParseError::MinimumNotMet);
        }
        if matches!(args.trailing, Trailing::Required) {
            return parse_sep_required::<T, P, Q, S>(cur, buf, args, max_val);
        }
        if max_val == 0 {
            let out: Vec<Q> = Vec::new();
            proof {
                assert(out.deep_view() =~= Seq::<Q::V>::empty());
            }
            return Ok(VecSeperated(out, core::marker::PhantomData));
        }
        let ghost s = old(buf)@.skip(old(cur).abs());
        proof {
            lemma_buf_len_bounded(buf);
        }
        let mut child = cur.cursor();
        let first = match P::parse(&mut child, buf, &args.extra.0) {
            Ok(p) => p,
            Err(_) => {
                if args.min == 0 {
                    let out: Vec<Q> = Vec::new();
                    proof {
                        assert(out.deep_view() =~= Seq::<Q::V>::empty());
                    }
                    return Ok(VecSeperated(out, core::marker::PhantomData));
                } else {
                    return Err(ParseError::MinimumNotMet);
                }
            },
        };
        let pos = child.position();
        if pos == 0 {
            return Err(ParseError::ZeroProgress);
        }
        cur.fast_forward(pos);
        proof {
            P::lemma_parse_length(args.extra.0, s);
        }
        let ghost first_v = first.deep_view();
        let ghost np = pos as int;
        let mut output: Vec<Q> = Vec::new();
        output.push(first.process());
        let ghost mut tail_vs: Seq<P::V> = Seq::empty();
        let ghost mut consumed: int = np;
        proof {
            assert(s.skip(np).skip(0) =~= s.skip(np));
            assert(output.deep_view() =~= spec_processed::<P>(seq![first_v] + tail_vs));
        }
        loop
            invariant
                buf.wf(),
                buf@ == old(buf)@,
                cur.spec_base() == old(cur).spec_base(),
                cur.valid(buf@.len() as int),
                s == buf@.skip(old(cur).abs()),
                max_val >= 1,
                args.min <= max_val,
                !(args.trailing is Required),
                max_val as int == spec_max_bound(args.max),
                0 < np <= consumed <= s.len(),
                cur.spec_index() == old(cur).spec_index() + consumed,
                1 <= output@.len() <= max_val,
                output@.len() == 1 + tail_vs.len(),
                output.deep_view() == spec_processed::<P>(seq![first_v] + tail_vs),
                P::spec_parse(args.extra.0, s) == Some::<(P::V, int)>((first_v, np)),
                match spec_parse_sep_tail::<T, P, S>(
                    args.extra.0,
                    args.extra.1,
                    s.skip(consumed),
                    max_val - output@.len(),
                ) {
                    Some((vs, m)) => spec_parse_sep_tail::<T, P, S>(
                        args.extra.0,
                        args.extra.1,
                        s.skip(np),
                        max_val - 1,
                    ) == Some::<(Seq<P::V>, int)>((tail_vs + vs, (consumed - np) + m)),
                    None => spec_parse_sep_tail::<T, P, S>(
                        args.extra.0,
                        args.extra.1,
                        s.skip(np),
                        max_val - 1,
                    ) is None,
                },
            ensures
                buf.wf(),
                buf@ == old(buf)@,
                cur.spec_base() == old(cur).spec_base(),
                cur.valid(buf@.len() as int),
                cur.spec_index() == old(cur).spec_index() + consumed,
                s == buf@.skip(old(cur).abs()),
                np <= consumed <= s.len(),
                1 <= output@.len() <= max_val,
                output.deep_view() == spec_processed::<P>(seq![first_v] + tail_vs),
                spec_parse_sep_tail::<T, P, S>(
                    args.extra.0,
                    args.extra.1,
                    s.skip(np),
                    max_val - 1,
                ) == Some::<(Seq<P::V>, int)>((tail_vs, consumed - np)),
                output@.len() == 1 + tail_vs.len(),
            decreases max_val - output@.len(),
        {
            if output.len() == max_val {
                proof {
                    assert(spec_parse_sep_tail::<T, P, S>(
                        args.extra.0,
                        args.extra.1,
                        s.skip(consumed),
                        max_val - output@.len(),
                    ) == Some::<(Seq<P::V>, int)>((Seq::empty(), 0)));
                    assert(tail_vs + Seq::<P::V>::empty() =~= tail_vs);
                }
                break ;
            }
            proof {
                lemma_buf_len_bounded(buf);
            }
            let mut round = cur.cursor();
            proof {
                assert(buf@.skip(round.abs()) =~= s.skip(consumed));
            }
            if !S::peek(&mut round, buf, &args.extra.1) {
                proof {
                    assert(S::spec_parse(args.extra.1, s.skip(consumed)) is None);
                    assert(spec_parse_sep_tail::<T, P, S>(
                        args.extra.0,
                        args.extra.1,
                        s.skip(consumed),
                        max_val - output@.len(),
                    ) == Some::<(Seq<P::V>, int)>((Seq::empty(), 0)));
                    assert(tail_vs + Seq::<P::V>::empty() =~= tail_vs);
                }
                break ;
            }
            let ghost ns = round.spec_index();
            proof {
                S::lemma_parse_length(args.extra.1, s.skip(consumed));
                assert(buf@.skip(round.abs()) =~= s.skip(consumed).skip(ns));
            }
            match P::parse(&mut round, buf, &args.extra.0) {
                Err(_) => {
                    proof {
                        assert(spec_parse_sep_tail::<T, P, S>(
                            args.extra.0,
                            args.extra.1,
                            s.skip(consumed),
                            max_val - output@.len(),
                        ) == Some::<(Seq<P::V>, int)>((Seq::empty(), 0)));
                        assert(tail_vs + Seq::<P::V>::empty() =~= tail_vs);
                    }
                    break ;
                },
                Ok(p) => {
                    let pos2 = round.position();
                    if pos2 == 0 {
                        proof {
                            P::lemma_parse_length(args.extra.0, s.skip(consumed).skip(ns));
                            assert(spec_parse_sep_tail::<T, P, S>(
                                args.extra.0,
                                args.extra.1,
                                s.skip(consumed),
                                max_val - output@.len(),
                            ) is None);
                        }
                        return Err(ParseError::ZeroProgress);
                    }
                    let ghost old_output = output;
                    let ghost old_tail = tail_vs;
                    let ghost old_consumed = consumed;
                    let ghost pv = p.deep_view();
                    output.push(p.process());
                    cur.fast_forward(pos2);
                    proof {
                        P::lemma_parse_length(args.extra.0, s.skip(old_consumed).skip(ns));
                        tail_vs = tail_vs.push(pv);
                        consumed = consumed + pos2;
                        assert(s.skip(old_consumed).skip(pos2 as int) =~= s.skip(consumed));
                        assert(output.deep_view() =~= old_output.deep_view().push(
                            P::spec_process(pv),
                        ));
                        assert((seq![first_v] + old_tail).push(pv) =~= seq![first_v] + tail_vs);
                        assert(spec_processed::<P>(seq![first_v] + old_tail).push(
                            P::spec_process(pv),
                        ) =~= spec_processed::<P>((seq![first_v] + old_tail).push(pv)));
                        match spec_parse_sep_tail::<T, P, S>(
                            args.extra.0,
                            args.extra.1,
                            s.skip(consumed),
                            max_val - output@.len(),
                        ) {
                            Some((vs, m)) => {
                                assert(old_tail + (seq![pv] + vs) =~= tail_vs + vs);
                            },
                            None => {},
                        }
                    }
                },
            }
        }
        // The run has ended; under the optional rule a single trailing
        // separator is consumed when one is present and the bound was not
        // what stopped the run.
        if matches!(args.trailing, Trailing::Optional) && output.len() < max_val {
            proof {
                lemma_buf_len_bounded(buf);
            }
            let mut round = cur.cursor();
            proof {
                assert(buf@.skip(round.abs()) =~= s.skip(consumed));
            }
            match S::parse(&mut round, buf, &args.extra.1) {
                Ok(_) => {
                    let pos3 = round.position();
                    proof {
                        S::lemma_parse_length(args.extra.1, s.skip(consumed));
                    }
                    cur.fast_forward(pos3);
                    proof {
                        consumed = consumed + pos3;
                    }
                },
                Err(_) => {},
            }
        }
        if output.len() < args.min {
            Err(ParseError::MinimumNotMet)
        } else {
            Ok(VecSeperated(output, core::marker::PhantomData))
        }
    }

    fn peek(cur: &mut Cursor, buf: &mut Buf<T>, args: &VecArgs<(P::Args, S::Args)>) -> (r: bool) {
        Self::parse(cur, buf, args).is_ok()
    }
}

/// The list under the required-trailing rule: rounds of element then
/// separator, where an element without a following separator is a hard
/// error.
fn parse_sep_required<T: Copy, P: Parse<T> + Process<Output = Q>, Q: DeepView, S: Parse<T>>(
    cur: &mut Cursor,
    buf: &mut Buf<T>,
    args: &VecArgs<(P::Args, S::Args)>,
    max_val: usize,
) -> (r: Result<VecSeperated<P, Q, S>, ParseError>)
    requires
        old(buf).wf(),
        old(cur).valid(old(buf)@.len() as int),
        args.min <= max_val,
        args.trailing is Required,
        max_val as int == spec_max_bound(args.max),
    ensures
        final(buf).wf(),
        final(buf)@ == old(buf)@,
        final(cur).spec_base() == old(cur).spec_base(),
        final(cur).valid(old(buf)@.len() as int),
        match <VecSeperated<P, Q, S> as Parse<T>>::spec_parse(
            *args,
            old(buf)@.skip(old(cur).abs()),
        ) {
            Some((v, n)) => r matches Ok(p) && p.deep_view() == v && final(cur).spec_index() == old(
                cur,
            ).spec_index() + n,
            None => r is Err,
        },
{
        let ghost s = old(buf)@.skip(old(cur).abs());
        let pa = &args.extra.0;
        let sa = &args.extra.1;
        let mut output: Vec<Q> = Vec::new();
        let ghost mut raw: Seq<P::V> = Seq::empty();
        let ghost mut consumed: int = 0;
        proof {
            assert(s.skip(0) =~= s);
            assert(output.deep_view() =~= spec_processed::<P>(raw));
        }
        loop
            invariant
                buf.wf(),
                buf@ == old(buf)@,
                cur.spec_base() == old(cur).spec_base(),
                cur.valid(buf@.len() as int),
                s == buf@.skip(old(cur).abs()),
                args.min <= max_val,
                args.trailing is Required,
                max_val as int == spec_max_bound(args.max),
                0 <= consumed <= s.len(),
                cur.spec_index() == old(cur).spec_index() + consumed,
                output@.len() <= max_val,
                output@.len() == raw.len(),
                output.deep_view() == spec_processed::<P>(raw),
                match spec_parse_req::<T, P, S>(
                    args.extra.0,
                    args.extra.1,
                    s.skip(consumed),
                    max_val - output@.len(),
                ) {
                    Some((vs, m)) => spec_parse_req::<T, P, S>(
                        args.extra.0,
                        args.extra.1,
                        s,
                        max_val as int,
                    ) == Some::<(Seq<P::V>, int)>((raw + vs, consumed + m)),
                    None => spec_parse_req::<T, P, S>(
                        args.extra.0,
                        args.extra.1,
                        s,
                        max_val as int,
                    ) is None,
                },
            ensures
                buf.wf(),
                buf@ == old(buf)@,
                cur.spec_base() == old(cur).spec_base(),
                cur.valid(buf@.len() as int),
                cur.spec_index() == old(cur).spec_index() + consumed,
                output@.len() == raw.len(),
                output.deep_view() == spec_processed::<P>(raw),
                spec_parse_req::<T, P, S>(args.extra.0, args.extra.1, s, max_val as int) == Some::<
                    (Seq<P::V>, int),
                >((raw, consumed)),
            decreases max_val - output@.len(),
        {
            if output.len() == max_val {
                proof {
                    assert(raw + Seq::<P::V>::empty() =~= raw);
                }
                break ;
            }
            proof {
                lemma_buf_len_bounded(buf);
            }
            let mut round = cur.cursor();
            proof {
                assert(buf@.skip(round.abs()) =~= s.skip(consumed));
            }
            match P::parse(&mut round, buf, &args.extra.0) {
                Err(_) => {
                    proof {
                        assert(spec_parse_req::<T, P, S>(
                            args.extra.0,
                            args.extra.1,
                            s.skip(consumed),
                            max_val - output@.len(),
                        ) == Some::<(Seq<P::V>, int)>((Seq::empty(), 0)));
                        assert(raw + Seq::<P::V>::empty() =~= raw);
                    }
                    break ;
                },
                Ok(p) => {
                    let ghost np = round.spec_index();
                    proof {
                        P::lemma_parse_length(args.extra.0, s.skip(consumed));
                        assert(buf@.skip(round.abs()) =~= s.skip(consumed).skip(np));
                    }
                    match S::parse(&mut round, buf, &args.extra.1) {
                        Err(e) => {
                            proof {
                                assert(spec_parse_req::<T, P, S>(
                                    args.extra.0,
                                    args.extra.1,
                                    s.skip(consumed),
                                    max_val - output@.len(),
                                ) is None);
                            }
                            return Err(e);
                        },
                        Ok(_) => {
                            let pos = round.position();
                            if pos == 0 {
                                proof {
                                    S::lemma_parse_length(
                                        args.extra.1,
                                        s.skip(consumed).skip(np),
                                    );
                                    assert(spec_parse_req::<T, P, S>(
                                        args.extra.0,
                                        args.extra.1,
                                        s.skip(consumed),
                                        max_val - output@.len(),
                                    ) is None);
                                }
                                return Err(ParseError::ZeroProgress);
                            }
                            let ghost old_output = output;
                            let ghost old_raw = raw;
                            let ghost old_consumed = consumed;
                            let ghost pv = p.deep_view();
                            output.push(p.process());
                            cur.fast_forward(pos);
                            proof {
                                S::lemma_parse_length(args.extra.1, s.skip(old_consumed).skip(np));
                                raw = raw.push(pv);
                                consumed = consumed + pos;
                                assert(s.skip(old_consumed).skip(pos as int) =~= s.skip(consumed));
                                assert(output.deep_view() =~= old_output.deep_view().push(
                                    P::spec_process(pv),
                                ));
                                assert(spec_processed::<P>(old_raw).push(P::spec_process(pv)) =~= (
                                spec_processed::<P>(old_raw.push(pv))));
                                match spec_parse_req::<T, P, S>(
                                    args.extra.0,
                                    args.extra.1,
                                    s.skip(consumed),
                                    max_val - output@.len(),
                                ) {
                                    Some((vs, m)) => {
                                        assert(old_raw + (seq![pv] + vs) =~= raw + vs);
                                    },
                                    None => {},
                                }
                            }
                        },
                    }
                },
            }
        }
    if output.len() < args.min {
        Err(ParseError::MinimumNotMet)
    } else {
        Ok(VecSeperated(output, core::marker::PhantomData))
    }
}

} // verus!

