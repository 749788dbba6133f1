//! Bounded byte history of one instance: the newest bytes win.

use std::collections::VecDeque;
use vstd::prelude::*;

verus! {

/// The last `cap` items of `s`, or all of `s` when it holds no more than that.
pub open spec fn tail_of(s: Seq<u8>, cap: nat) -> Seq<u8> {
    if s.len() <= cap {
        s
    } else {
        s.subrange(s.len() - cap, s.len() as int)
    }
}

/// All chunks laid end to end, first chunk first.
pub open spec fn joined(chunks: Seq<Seq<u8>>) -> Seq<u8>
    decreases chunks.len(),
{
    if chunks.len() == 0 {
        Seq::empty()
    } else {
        joined(chunks.drop_last()) + chunks.last()
    }
}

/// What a buffer of capacity `cap` that held `start` holds once every chunk
/// has been pushed in turn.
pub open spec fn after_pushes(start: Seq<u8>, chunks: Seq<Seq<u8>>, cap: nat) -> Seq<u8>
    decreases chunks.len(),
{
    if chunks.len() == 0 {
        start
    } else {
        tail_of(after_pushes(start, chunks.drop_last(), cap) + chunks.last(), cap)
    }
}

/// Cutting to the tail before appending loses nothing that the tail taken
/// afterwards would have kept.
pub proof fn lemma_tail_absorbs(s: Seq<u8>, more: Seq<u8>, cap: nat)
    ensures
        tail_of(tail_of(s, cap) + more, cap) == tail_of(s + more, cap),
        tail_of(s, cap).len() <= cap,
        tail_of(s, cap).len() == if s.len() <= cap { s.len() } else { cap },
{
}

/// However the input is cut into chunks, a buffer of capacity `cap` that
/// started empty holds exactly the last `min(cap, total)` bytes of the whole
/// input, and never more than `cap` bytes.
pub proof fn lemma_pushes_keep_tail(chunks: Seq<Seq<u8>>, cap: nat)
    ensures
        after_pushes(Seq::empty(), chunks, cap) == tail_of(joined(chunks), cap),
        after_pushes(Seq::empty(), chunks, cap).len() <= cap,
        after_pushes(Seq::empty(), chunks, cap).len() == if joined(chunks).len() <= cap {
            joined(chunks).len()
        } else {
            cap
        },
    decreases chunks.len(),
{
    if chunks.len() > 0 {
        lemma_pushes_keep_tail(chunks.drop_last(), cap);
        lemma_tail_absorbs(joined(chunks.drop_last()), chunks.last(), cap);
        lemma_tail_absorbs(joined(chunks), Seq::empty(), cap);
    }
}

/// Fixed-capacity byte buffer that evicts its oldest bytes first.
pub struct RingBuffer {
    buf: VecDeque<u8>,
    cap: usize,
}

impl View for RingBuffer {
    type V = Seq<u8>;

    /// The bytes held, oldest first.
    closed spec fn view(&self) -> Seq<u8> {
        self.buf@
    }
}

impl RingBuffer {
    /// Holds of every buffer that `new` made, whatever was pushed since: the
    /// contents fit the capacity.
    pub closed spec fn wf(&self) -> bool {
        self.buf@.len() <= self.cap
    }

    /// The configured capacity in bytes.
    pub closed spec fn capacity(&self) -> nat {
        self.cap as nat
    }

    /// An empty buffer that will hold at most `cap` bytes.
    pub fn new(cap: usize) -> (r: Self)
        ensures
            r.wf(),
            r@ == Seq::<u8>::empty(),
            r.capacity() == cap,
    {
        Self { buf: VecDeque::new(), cap }
    }

    /// The capacity this buffer was made with.
    pub fn cap(&self) -> (c: usize)
        ensures
            c == self.capacity(),
    {
        self.cap
    }

    /// Number of bytes held; never above the capacity.
    pub fn len(&self) -> (n: usize)
        requires
            self.wf(),
        ensures
            n == self@.len(),
            n <= self.capacity(),
    {
        self.buf.len()
    }

    /// Appends `data`, dropping the oldest bytes that no longer fit: the
    /// buffer then holds the last `capacity` bytes of old contents followed
    /// by `data`.
    pub fn push(&mut self, data: &[u8])
        requires
            old(self).wf(),
        ensures
            final(self).wf(),
            final(self).capacity() == old(self).capacity(),
            final(self)@ == tail_of(old(self)@ + data@, old(self).capacity()),
    {
        let n = data.len();
        if n == 0 {
            return ;
        }
        let ghost before = self.buf@;
        let start: usize = if n >= self.cap {
            self.buf.clear();
            n - self.cap
        } else {
            while self.buf.len() > self.cap - n
                invariant
                    n < self.cap,
                    self.cap == old(self).cap,
                    self.buf@.len() <= before.len(),
                    self.buf@.len() == before.len() || self.buf@.len() >= self.cap - n,
                    self.buf@ == before.subrange(before.len() - self.buf@.len(), before.len() as int),
                decreases self.buf@.len(),
            {
                let _ = self.buf.pop_front();
            }
            0
        };
        let ghost kept = self.buf@;
        let mut i: usize = start;
        while i < n
            invariant
                start <= i <= n,
                n == data@.len(),
                self.cap == old(self).cap,
                kept.len() + (n - start) <= self.cap,
                self.buf@ == kept + data@.subrange(start as int, i as int),
            decreases n - i,
        {
            self.buf.push_back(data[i]);
            i += 1;
        }
    }

    /// A copy of the contents, oldest byte first.
    pub fn snapshot(&self) -> (out: Vec<u8>)
        requires
            self.wf(),
        ensures
            out@ == self@,
            out@.len() <= self.capacity(),
    {
        let n = self.buf.len();
        let mut out: Vec<u8> = Vec::new();
        let mut i: usize = 0;
        while i < n
            invariant
                i <= n,
                n == self.buf@.len(),
                out@ == self.buf@.subrange(0, i as int),
            decreases n - i,
        {
            out.push(self.buf[i]);
            i += 1;
        }
        out
    }
}

} // verus!
