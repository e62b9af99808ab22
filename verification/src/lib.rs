//! A backtracking, token-stream parsing runtime: a lookahead buffer plus a
//! two-phase peek-then-parse combinator protocol for building
//! recursive-descent parsers compositionally.
//!
//! A [`Buf`] wraps a sequence of tokens with a lookahead cache, so the same
//! token can be read many times before it is permanently consumed. A
//! [`Cursor`] is a speculative read window over the buffer: sub-parsers read
//! through nested cursors, and their progress becomes permanent only when a
//! caller commits it by fast-forwarding the parent. The [`Parse`] trait is
//! the protocol every matcher and combinator implements: `peek` tests
//! whether a match is possible, `parse` performs the consuming match, and
//! both are bound to one specification function, so a true `peek` implies a
//! successful `parse` at the same read position.

use vstd::prelude::*;

mod buffer;
pub mod bytes;
mod error;
mod impls;
mod surrounded;
mod tuple;
pub mod text;
pub mod vec;

pub use buffer::Buf;
pub use buffer::Buffer;
pub use buffer::Cursor;
pub use buffer::IntoBuf;
pub use buffer::lemma_buf_len_bounded;
pub use buffer::lemma_fast_forward_commit;
pub use buffer::spec_next_n;
pub use error::ParseError;
pub use error::PrefixedByParseError;
pub use impls::Vec1;
pub use impls::lemma_parse_repeat_length;
pub use impls::spec_parse_repeat;
pub use surrounded::PrefixedBy;
pub use surrounded::SuffixedBy;
pub use surrounded::SurroundedBy;

verus! {

/// Relies on `String::push`: appends the given character to the end of the
/// string.
pub assume_specification[ String::push ](s: &mut String, c: char)
    ensures
        final(s)@ == old(s)@.push(c),
;

/// The length of the longest prefix of `s` whose tokens all satisfy `p`.
pub open spec fn match_len<T>(p: spec_fn(T) -> bool, s: Seq<T>) -> int
    decreases s.len(),
{
    if s.len() == 0 || !p(s[0]) {
        0
    } else {
        1 + match_len(p, s.skip(1))
    }
}

/// The matched prefix lies within `s`, all its tokens satisfy `p`, and the
/// token after it, if any, does not.
pub proof fn lemma_match_len<T>(p: spec_fn(T) -> bool, s: Seq<T>)
    ensures
        0 <= match_len(p, s) <= s.len(),
        forall|i: int| 0 <= i < match_len(p, s) ==> p(s[i]),
        match_len(p, s) < s.len() ==> !p(s[match_len(p, s)]),
    decreases s.len(),
{
    if s.len() == 0 || !p(s[0]) {
    } else {
        lemma_match_len(p, s.skip(1));
        assert forall|i: int| 0 <= i < match_len(p, s) implies p(s[i]) by {
            if i > 0 {
                assert(p(s.skip(1)[i - 1]));
            }
        }
    }
}

/// A position that is preceded only by matching tokens and is itself the
/// end of the sequence or a mismatch is the matched prefix's length.
pub proof fn lemma_match_len_is<T>(p: spec_fn(T) -> bool, s: Seq<T>, j: int)
    requires
        0 <= j <= s.len(),
        forall|i: int| 0 <= i < j ==> p(s[i]),
        j < s.len() ==> !p(s[j]),
    ensures
        match_len(p, s) == j,
    decreases j,
{
    if j == 0 {
    } else {
        assert(p(s[0]));
        assert forall|i: int| 0 <= i < j - 1 implies p(s.skip(1)[i]) by {
            assert(p(s[i + 1]));
        }
        assert(j - 1 < s.skip(1).len() ==> !p(s.skip(1)[j - 1]));
        lemma_match_len_is(p, s.skip(1), j - 1);
    }
}

/// The peek-then-parse protocol.
///
/// Each implementation is bound to its [`Parse::spec_parse`] function, which
/// says, for a sequence of remaining tokens, whether a match succeeds and
/// how many tokens it consumes. `parse` and `peek` read through a [`Cursor`]
/// and never change the buffer's remaining tokens: consuming a match means
/// advancing the cursor, and the caller decides whether that progress is
/// committed to the buffer or discarded.
pub trait Parse<T: Copy>: Sized + DeepView {
    /// Runtime configuration handed to the matcher, such as the literal of
    /// a tag or the bounds of a list.
    type Args;

    /// The meaning of this matcher on the token sequence `s`:
    /// `Some((v, n))` when the match succeeds, yielding the abstract value
    /// `v` after consuming exactly `n` tokens, and `None` when it fails.
    spec fn spec_parse(args: Self::Args, s: Seq<T>) -> Option<(Self::V, int)>;

    /// A successful match consumes between `0` and `s.len()` tokens.
    proof fn lemma_parse_length(args: Self::Args, s: Seq<T>)
        ensures
            Self::spec_parse(args, s) matches Some((v, n)) ==> 0 <= n <= s.len(),
    ;

    /// Attempt the consuming match at the cursor's position. On success the
    /// cursor has advanced by exactly the consumed tokens; on failure its
    /// position is unspecified and the caller discards it. The buffer's
    /// remaining tokens are never changed.
    fn parse(cur: &mut Cursor, buf: &mut Buf<T>, args: &Self::Args) -> (r: Result<
        Self,
        ParseError,
    >)
        requires
            old(buf).wf(),
            old(cur).valid(old(buf)@.len() as int),
        ensures
            final(buf).wf(),
            final(buf)@ == old(buf)@,
            final(cur).spec_base() == old(cur).spec_base(),
            final(cur).valid(old(buf)@.len() as int),
            match Self::spec_parse(*args, old(buf)@.skip(old(cur).abs())) {
                Some((v, n)) => r matches Ok(p) && p.deep_view() == v && final(cur).spec_index()
                    == old(cur).spec_index() + n,
                None => r is Err,
            },
    ;

    /// Test whether the match would succeed at the cursor's position. On a
    /// `true` result the cursor has advanced by exactly the tokens the match
    /// consumes, so peeks compose sequentially; on `false` its position is
    /// unspecified and the caller discards it.
    fn peek(cur: &mut Cursor, buf: &mut Buf<T>, args: &Self::Args) -> (r: bool)
        requires
            old(buf).wf(),
            old(cur).valid(old(buf)@.len() as int),
        ensures
            final(buf).wf(),
            final(buf)@ == old(buf)@,
            final(cur).spec_base() == old(cur).spec_base(),
            final(cur).valid(old(buf)@.len() as int),
            match Self::spec_parse(*args, old(buf)@.skip(old(cur).abs())) {
                Some((v, n)) => r && final(cur).spec_index() == old(cur).spec_index() + n,
                None => !r,
            },
    ;
}

/// Conversion of a parsed matcher value into its output form, such as a
/// collected text matcher into the `String` it matched.
pub trait Process: Sized + DeepView {
    /// The output form.
    type Output: DeepView;

    /// What the conversion yields, at the level of abstract values.
    spec fn spec_process(v: Self::V) -> <Self::Output as DeepView>::V;

    /// Convert the parsed value into its output form.
    fn process(self) -> (r: Self::Output)
        ensures
            r.deep_view() == Self::spec_process(self.deep_view()),
    ;
}

/// Parse a `P` from the front of the buffer. On success the consumed tokens
/// are committed away from the buffer; on failure the buffer is unchanged.
pub fn parse_next<P: Parse<T>, T: Copy>(buf: &mut Buf<T>, args: &P::Args) -> (r: Result<
    P,
    ParseError,
>)
    requires
        old(buf).wf(),
    ensures
        final(buf).wf(),
        match P::spec_parse(*args, old(buf)@) {
            Some((v, n)) => r matches Ok(p) && p.deep_view() == v && final(buf)@ == old(
                buf,
            )@.skip(n),
            None => r is Err && final(buf)@ == old(buf)@,
        },
{
    let mut cur = buf.cursor();
    proof {
        assert(old(buf)@.skip(0) =~= old(buf)@);
    }
    match P::parse(&mut cur, buf, args) {
        Ok(p) => {
            proof {
                P::lemma_parse_length(*args, old(buf)@);
            }
            let pos = cur.position();
            buf.fast_forward(pos);
            Ok(p)
        },
        Err(e) => Err(e),
    }
}

/// Run `P`'s parse over the given tokens, returning the parsed value or the
/// error the parse failed with.
pub fn parse<P: Parse<I::Token>, I: IntoBuf>(iter: I, args: &P::Args) -> (r: Result<P, ParseError>)
    ensures
        match P::spec_parse(*args, iter.spec_tokens()) {
            Some((v, n)) => r matches Ok(p) && p.deep_view() == v,
            None => r is Err,
        },
{
    let mut buffer = iter.into_buf();
    parse_next::<P, I::Token>(&mut buffer, args)
}

/// Run `P`'s parse over the given tokens and require that it consumes them
/// all: a parse that succeeds but leaves input behind is reported as
/// [`ParseError::Incomplete`].
pub fn parse_terminated<P: Parse<I::Token>, I: IntoBuf>(iter: I, args: &P::Args) -> (r: Result<
    P,
    ParseError,
>)
    ensures
        match P::spec_parse(*args, iter.spec_tokens()) {
            Some((v, n)) => if n == iter.spec_tokens().len() {
                r matches Ok(p) && p.deep_view() == v
            } else {
                r matches Err(e) && e is Incomplete
            },
            None => r is Err,
        },
{
    let ghost toks = iter.spec_tokens();
    let mut buffer = iter.into_buf();
    proof {
        P::lemma_parse_length(*args, toks);
    }
    match parse_next::<P, I::Token>(&mut buffer, args) {
        Ok(output) => {
            match buffer.next() {
                Some(_) => Err(ParseError::Incomplete),
                None => Ok(output),
            }
        },
        Err(e) => Err(e),
    }
}

} // verus!

