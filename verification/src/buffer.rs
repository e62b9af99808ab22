//! The lookahead buffer and the speculative cursors over it.
//!
//! A [`Buf`] owns a sequence of tokens and hands them out front to back.
//! Tokens that have been read ahead but not yet permanently consumed sit in
//! a lookahead cache, so the same token can be read any number of times
//! before a commit discards it.
//!
//! A [`Cursor`] is a speculative read window over a `Buf`: a base offset
//! (where in the buffer's index space the window starts) plus a running
//! index (how many tokens this cursor has read). Reading through a cursor
//! never changes the buffer's remaining tokens; the only operations that
//! discard tokens are [`Buffer::next`] and [`Buffer::fast_forward`], which
//! a caller invokes to commit a cursor's progress.

use vstd::prelude::*;

verus! {

/// The interface of a token buffer: a front-to-back sequence of tokens
/// (its view) that supports destructive reads, bulk commits, and
/// non-destructive lookahead.
pub trait Buffer<T: Copy>: Sized + View<V = Seq<T>> {
    /// Internal well-formedness; constructors establish it and every
    /// operation preserves it.
    spec fn wf(&self) -> bool;

    /// Return and permanently discard the first remaining token, or `None`
    /// when the buffer is exhausted.
    fn next(&mut self) -> (r: Option<T>)
        requires
            old(self).wf(),
        ensures
            final(self).wf(),
            match r {
                Some(t) => old(self)@.len() > 0 && t == old(self)@[0] && final(self)@ == old(
                    self,
                )@.skip(1),
                None => old(self)@.len() == 0 && final(self)@ == old(self)@,
            },
    ;

    /// Permanently discard the first `n` remaining tokens, saturating at the
    /// end of the buffer.
    fn fast_forward(&mut self, n: usize)
        requires
            old(self).wf(),
        ensures
            final(self).wf(),
            n <= old(self)@.len() ==> final(self)@ == old(self)@.skip(n as int),
            n > old(self)@.len() ==> final(self)@ == Seq::<T>::empty(),
    ;

    /// Return the token at offset `i` from the current position without
    /// discarding anything, or `None` when fewer than `i + 1` tokens remain.
    fn peek_ahead(&mut self, i: usize) -> (r: Option<T>)
        requires
            old(self).wf(),
        ensures
            final(self).wf(),
            final(self)@ == old(self)@,
            i < old(self)@.len() ==> r == Some(old(self)@[i as int]),
            i >= old(self)@.len() ==> r is None,
    ;

    /// Open a cursor at the current position. Reads through the cursor do
    /// not affect this buffer's remaining tokens.
    fn cursor(&self) -> (c: Cursor)
        ensures
            c.spec_base() == 0,
            c.spec_index() == 0,
    ;
}

/// A buffer over tokens that were handed in as a vector: the remaining
/// uncached tokens (`source`, from position `spos` on) plus the lookahead
/// cache of tokens already read ahead but not yet committed away.
pub struct Buf<T> {
    cache: Vec<T>,
    source: Vec<T>,
    spos: usize,
}

impl<T> View for Buf<T> {
    type V = Seq<T>;

    closed spec fn view(&self) -> Seq<T> {
        self.cache@ + self.source@.skip(self.spos as int)
    }
}

impl<T: Copy> Buf<T> {
    /// Create a buffer whose remaining tokens are exactly `tokens`.
    pub fn new(tokens: Vec<T>) -> (b: Buf<T>)
        ensures
            b.wf(),
            b@ == tokens@,
    {
        proof {
            assert(tokens.len() == tokens@.len());
        }
        let b = Buf { cache: Vec::new(), source: tokens, spos: 0 };
        proof {
            assert(b@ =~= b.source@);
        }
        b
    }
}

/// A well-formed buffer holds at most `usize::MAX` remaining tokens, so a
/// valid cursor position always fits in a `usize`.
pub proof fn lemma_buf_len_bounded<T: Copy>(b: &Buf<T>)
    requires
        b.wf(),
    ensures
        b@.len() <= usize::MAX,
{
    assert(b.cache.len() == b.cache@.len());
    assert(b.source.len() == b.source@.len());
}

impl<T: Copy> Buffer<T> for Buf<T> {
    closed spec fn wf(&self) -> bool {
        self.spos <= self.source@.len() && self.cache@.len() + self.source@.len() - self.spos
            <= usize::MAX
    }

    fn next(&mut self) -> (r: Option<T>) {
        if self.cache.len() > 0 {
            let t = self.cache.remove(0);
            Some(t)
        } else if self.spos < self.source.len() {
            let t = self.source[self.spos];
            self.spos = self.spos + 1;
            proof {
                assert(self@ =~= old(self)@.skip(1));
            }
            Some(t)
        } else {
            proof {
                assert(self@ =~= old(self)@);
            }
            None
        }
    }

    fn fast_forward(&mut self, n: usize) {
        let clen = self.cache.len();
        if n < clen {
            // Drop the first n cached tokens, keep the rest.
            let mut k: usize = 0;
            while k < n
                invariant
                    k <= n,
                    n < old(self).cache@.len(),
                    self.source == old(self).source,
                    self.spos == old(self).spos,
                    self.cache@ == old(self).cache@.skip(k as int),
                decreases n - k,
            {
                self.cache.remove(0);
                k = k + 1;
                proof {
                    assert(self.cache@ =~= old(self).cache@.skip(k as int));
                }
            }
            proof {
                assert(self@ =~= old(self)@.skip(n as int));
            }
        } else {
            // The whole cache goes; the remainder is drained from the source
            // and discarded without ever being cached.
            self.cache.clear();
            let extra = n - clen;
            let left = self.source.len() - self.spos;
            if extra < left {
                self.spos = self.spos + extra;
                proof {
                    assert(self@ =~= old(self)@.skip(n as int));
                }
            } else {
                self.spos = self.source.len();
                proof {
                    if n <= old(self)@.len() {
                        assert(self@ =~= old(self)@.skip(n as int));
                    } else {
                        assert(self@ =~= Seq::<T>::empty());
                    }
                }
            }
        }
    }

    fn peek_ahead(&mut self, i: usize) -> (r: Option<T>) {
        while self.cache.len() <= i && self.spos < self.source.len()
            invariant
                self.wf(),
                self@ == old(self)@,
                self.source == old(self).source,
            decreases self.source@.len() - self.spos,
        {
            let t = self.source[self.spos];
            self.cache.push(t);
            self.spos = self.spos + 1;
            proof {
                assert(self@ =~= old(self)@);
            }
        }
        if i < self.cache.len() {
            Some(self.cache[i])
        } else {
            None
        }
    }

    fn cursor(&self) -> (c: Cursor) {
        Cursor { base: 0, index: 0 }
    }
}

/// A speculative read window over a [`Buf`]: `base` is the window's start in
/// the buffer's index space, `index` counts how many tokens this cursor has
/// read since it was created. Reading through a cursor never discards tokens
/// from the buffer; progress becomes permanent only when a caller commits it
/// by fast-forwarding the parent.
#[derive(Debug, Clone, Copy, PartialEq, Eq, Structural)]
pub struct Cursor {
    /// The window's start within the root buffer.
    pub base: usize,
    /// How many tokens this cursor has read.
    pub index: usize,
}

impl Cursor {
    /// The window's start within the root buffer.
    pub open spec fn spec_base(self) -> int {
        self.base as int
    }

    /// How many tokens this cursor has read.
    pub open spec fn spec_index(self) -> int {
        self.index as int
    }

    /// The absolute position of the next read within the root buffer.
    pub open spec fn abs(self) -> int {
        self.spec_base() + self.spec_index()
    }

    /// A cursor is valid for a buffer of `len` remaining tokens when its
    /// next read lies within, or one past, those tokens.
    pub open spec fn valid(self, len: int) -> bool {
        self.abs() <= len
    }

    /// Spawn a child cursor whose base is this cursor's current absolute
    /// position. The child's reads do not move this cursor.
    pub fn cursor(&self) -> (c: Cursor)
        requires
            self.abs() <= usize::MAX,
        ensures
            c.spec_base() == self.abs(),
            c.spec_index() == 0,
    {
        Cursor { base: self.base + self.index, index: 0 }
    }

    /// How many tokens this cursor has read since creation.
    pub fn position(&self) -> (r: usize)
        ensures
            r == self.spec_index(),
    {
        self.index
    }

    /// Move the cursor back to where it started.
    pub fn reset(&mut self) -> (r: bool)
        ensures
            final(self).spec_base() == old(self).spec_base(),
            final(self).spec_index() == 0,
            r,
    {
        self.index = 0;
        true
    }

    /// Advance the cursor by `n` tokens without reading them, as when a
    /// sub-parse has already consumed them through a child cursor.
    pub fn fast_forward(&mut self, n: usize)
        requires
            old(self).abs() + n <= usize::MAX,
        ensures
            final(self).spec_base() == old(self).spec_base(),
            final(self).spec_index() == old(self).spec_index() + n,
    {
        self.index = self.index + n;
    }

    /// Read the token under the cursor and advance. Returns `None`, without
    /// advancing, when the cursor has reached the end of the buffer's
    /// remaining tokens. The buffer's remaining tokens are never changed.
    pub fn next<T: Copy>(&mut self, buf: &mut Buf<T>) -> (r: Option<T>)
        requires
            old(buf).wf(),
            old(self).valid(old(buf)@.len() as int),
        ensures
            final(buf).wf(),
            final(buf)@ == old(buf)@,
            final(self).spec_base() == old(self).spec_base(),
            final(self).valid(old(buf)@.len() as int),
            match r {
                Some(t) => old(self).abs() < old(buf)@.len() && t == old(buf)@[old(self).abs()]
                    && final(self).spec_index() == old(self).spec_index() + 1,
                None => *final(self) == *old(self) && old(self).abs() == old(buf)@.len(),
            },
    {
        proof {
            lemma_buf_len_bounded(buf);
        }
        match buf.peek_ahead(self.base + self.index) {
            Some(t) => {
                self.index = self.index + 1;
                Some(t)
            },
            None => None,
        }
    }

    /// Return the token `i` places ahead of the cursor without advancing.
    pub fn peek_ahead<T: Copy>(&self, buf: &mut Buf<T>, i: usize) -> (r: Option<T>)
        requires
            old(buf).wf(),
            self.abs() + i <= usize::MAX,
        ensures
            final(buf).wf(),
            final(buf)@ == old(buf)@,
            self.abs() + i < old(buf)@.len() ==> r == Some(old(buf)@[self.abs() + i]),
            self.abs() + i >= old(buf)@.len() ==> r is None,
    {
        buf.peek_ahead(self.base + self.index + i)
    }
}

/// The remaining tokens after `k` single destructive reads, each of which
/// removes the first remaining token, as [`Buffer::next`] ensures.
pub open spec fn spec_next_n<T>(s: Seq<T>, k: nat) -> Seq<T>
    decreases k,
{
    if k == 0 {
        s
    } else if s.len() == 0 {
        s
    } else {
        spec_next_n(s.skip(1), (k - 1) as nat)
    }
}

/// Fast-forward commit: on a buffer holding `s`, opening a cursor, reading
/// `k` tokens through it, and committing with the parent's
/// `fast_forward(k)` is observationally equivalent to reading those `k`
/// tokens directly from the parent. The buffer is left holding
/// `s.skip(k)` either way — what `fast_forward(k)` ensures on one side and
/// `k` chained `next` calls leave on the other — and the `i`-th token seen
/// is `s[i]` either way: what `Cursor::next` returns at index `i`, and
/// what the `i`-th direct `next` returns.
pub proof fn lemma_fast_forward_commit<T>(s: Seq<T>, k: nat)
    requires
        k <= s.len(),
    ensures
        spec_next_n(s, k) == s.skip(k as int),
        forall|i: int| 0 <= i < k ==> spec_next_n(s, i as nat)[0] == s[i],
    decreases k,
{
    if k == 0 {
        assert(spec_next_n(s, 0) =~= s.skip(0));
    } else {
        lemma_fast_forward_commit(s.skip(1), (k - 1) as nat);
        assert(s.skip(1).skip(k - 1) =~= s.skip(k as int));
        assert forall|i: int| 0 <= i < k implies spec_next_n(s, i as nat)[0] == s[i] by {
            if i > 0 {
                assert(spec_next_n(s.skip(1), (i - 1) as nat)[0] == s.skip(1)[i - 1]);
            } else {
                assert(spec_next_n(s, 0) == s);
            }
        }
    }
}

/// Conversion of a plain token container into a [`Buf`] over its tokens.
pub trait IntoBuf: Sized {
    /// The token type of the resulting buffer.
    type Token: Copy;

    /// The tokens the buffer will hold, in order.
    spec fn spec_tokens(self) -> Seq<Self::Token>;

    /// Consume the container and wrap its tokens in a fresh [`Buf`].
    fn into_buf(self) -> (b: Buf<Self::Token>)
        ensures
            b.wf(),
            b@ == self.spec_tokens(),
    ;
}

impl<T: Copy> IntoBuf for Vec<T> {
    type Token = T;

    open spec fn spec_tokens(self) -> Seq<T> {
        self@
    }

    fn into_buf(self) -> (b: Buf<T>) {
        Buf::new(self)
    }
}

} // verus!
